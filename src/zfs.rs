//! A pool of the dataset tool and the resources under it: what the tool is
//! handed to create, destroy and list them, and the records that a listing
//! reads back as.
use vstd::prelude::*;

use crate::listing::{listed, parse_listing};
use crate::runner::{options_args, CommandOptions, Error};
use crate::text::{decimal, push_char, push_decimal, string_of};

verus! {

/// Whether a listed resource is a filesystem or a block device.
#[derive(Debug, Clone, Copy, PartialEq, Eq, PartialOrd, Ord, Structural)]
pub enum ZFSKind {
    Dataset,
    Volume,
}

/// A filesystem-like resource, with an optional quota set at creation.
#[derive(Debug, Clone, PartialEq, Eq, PartialOrd, Ord)]
pub struct Dataset {
    pub name: String,
    pub quota: Option<String>,
}

/// A block-device-like resource of `size` bytes.
#[derive(Debug, Clone, PartialEq, Eq, PartialOrd, Ord)]
pub struct Volume {
    pub name: String,
    pub size: u64,
}

/// One record of a listing.
#[derive(Debug, Clone)]
pub struct ZFSStat {
    pub kind: ZFSKind,
    /// The name under the pool, without the pool's prefix.
    pub name: String,
    /// The name as the tool prints it, pool first.
    pub full_name: String,
    pub size: u64,
    pub used: u64,
    pub avail: u64,
    pub refer: u64,
    /// `None` for a volume, which the tool lists without a mountpoint.
    pub mountpoint: Option<String>,
}

/// The value of a `ZFSStat`.
pub ghost struct StatModel {
    pub kind: ZFSKind,
    pub name: Seq<char>,
    pub full_name: Seq<char>,
    pub size: u64,
    pub used: u64,
    pub avail: u64,
    pub refer: u64,
    pub mountpoint: Option<Seq<char>>,
}

impl View for ZFSStat {
    type V = StatModel;

    open spec fn view(&self) -> StatModel {
        StatModel {
            kind: self.kind,
            name: self.name@,
            full_name: self.full_name@,
            size: self.size,
            used: self.used,
            avail: self.avail,
            refer: self.refer,
            mountpoint: self.mountpoint.deep_view(),
        }
    }
}

/// The values of a list of records.
pub open spec fn stats_view(v: Seq<ZFSStat>) -> Seq<StatModel> {
    v.map_values(|s: ZFSStat| s@)
}

/// A call of the tool: the program and the arguments, handed over as a list
/// and never through a shell.
#[derive(Debug, Clone, PartialEq, Eq)]
pub struct Invocation {
    pub program: String,
    pub args: Vec<String>,
}

/// The program that every invocation of this library runs.
pub open spec fn tool_program() -> Seq<char> {
    "zfs"@
}

/// The tool's name for `name` under `pool`.
pub open spec fn resource_path(pool: Seq<char>, name: Seq<char>) -> Seq<char> {
    pool.push('/') + name
}

/// The arguments that list every resource, sizes in raw bytes.
pub open spec fn list_args() -> Seq<Seq<char>> {
    seq!["list"@, "-p"@]
}

/// The arguments that destroy `name` under `pool`.
pub open spec fn destroy_args(pool: Seq<char>, name: Seq<char>) -> Seq<Seq<char>> {
    seq!["destroy"@, resource_path(pool, name)]
}

/// The arguments that create the dataset `name` under `pool` with the given
/// options.
pub open spec fn create_dataset_args(
    pool: Seq<char>,
    name: Seq<char>,
    opts: Seq<(Seq<char>, Seq<char>)>,
) -> Seq<Seq<char>> {
    seq!["create"@, resource_path(pool, name)] + options_args(opts)
}

/// The arguments that create the volume `name` of `size` bytes under `pool`
/// with the given options.
pub open spec fn create_volume_args(
    pool: Seq<char>,
    name: Seq<char>,
    size: u64,
    opts: Seq<(Seq<char>, Seq<char>)>,
) -> Seq<Seq<char>> {
    seq!["create"@, "-V"@, decimal(size as nat), resource_path(pool, name)] + options_args(opts)
}

/// The options that create a dataset: its quota, where it has one.
pub open spec fn dataset_options(quota: Option<Seq<char>>) -> Seq<(Seq<char>, Seq<char>)> {
    match quota {
        Some(q) => seq![("quota"@, q)],
        None => Seq::empty(),
    }
}

/// The options handed over, none where there are none.
pub open spec fn options_view(options: Option<CommandOptions>) -> Seq<(Seq<char>, Seq<char>)> {
    match options {
        Some(o) => o@,
        None => Seq::empty(),
    }
}

/// A change to the dataset `name`: its new name, and its new quota where one
/// is given.
#[derive(Debug, Clone, PartialEq, Eq)]
pub struct ModifyDataset {
    pub name: String,
    pub modifications: Dataset,
}

/// A change to the volume `name`: its new name and its new size.
#[derive(Debug, Clone, PartialEq, Eq)]
pub struct ModifyVolume {
    pub name: String,
    pub modifications: Volume,
}

/// The arguments that rename `from` to `to` under `pool`.
pub open spec fn rename_args(pool: Seq<char>, from: Seq<char>, to: Seq<char>) -> Seq<Seq<char>> {
    seq!["rename"@, resource_path(pool, from), resource_path(pool, to)]
}

/// The arguments that set the property `key` of `name` under `pool`.
pub open spec fn set_args(pool: Seq<char>, name: Seq<char>, key: Seq<char>, value: Seq<char>) -> Seq<
    Seq<char>,
> {
    seq!["set"@, crate::runner::option_text(key, value), resource_path(pool, name)]
}

/// The renaming run, where the name changes.
pub open spec fn renames(pool: Seq<char>, from: Seq<char>, to: Seq<char>) -> Seq<Seq<Seq<char>>> {
    if from == to {
        Seq::empty()
    } else {
        seq![rename_args(pool, from, to)]
    }
}

/// The runs that modify a dataset, in order: the rename, then the quota.
pub open spec fn modify_dataset_runs(
    pool: Seq<char>,
    from: Seq<char>,
    to: Seq<char>,
    quota: Option<Seq<char>>,
) -> Seq<Seq<Seq<char>>> {
    renames(pool, from, to) + match quota {
        Some(q) => seq![set_args(pool, to, "quota"@, q)],
        None => Seq::empty(),
    }
}

/// The runs that modify a volume, in order: the rename, then the size.
pub open spec fn modify_volume_runs(
    pool: Seq<char>,
    from: Seq<char>,
    to: Seq<char>,
    size: u64,
) -> Seq<Seq<Seq<char>>> {
    renames(pool, from, to) + seq![set_args(pool, to, "volsize"@, decimal(size as nat))]
}

/// `runs` are the invocations of the tool with the argument lists `args`, in
/// order.
pub open spec fn runs_all(runs: Seq<Invocation>, args: Seq<Seq<Seq<char>>>) -> bool {
    runs.len() == args.len() && forall|i: int| 0 <= i < runs.len() ==> #[trigger] runs[i].runs(args[i])
}

impl Invocation {
    /// An invocation of the tool with `args`.
    pub open spec fn runs(&self, args: Seq<Seq<char>>) -> bool {
        self.program@ == tool_program() && self.args.deep_view() == args
    }
}

/// Builds the invocations of the tool.
pub struct Controller;

impl Controller {
    fn tool(args: Vec<String>) -> (r: Invocation)
        ensures
            r.runs(args.deep_view()),
    {
        Invocation { program: String::from_str("zfs"), args }
    }

    /// The tool's name for `name` under `pool`.
    fn path(pool: &str, name: &str) -> (r: String)
        ensures
            r@ == resource_path(pool@, name@),
    {
        let mut p = String::from_str(pool);
        push_char(&mut p, '/');
        p.append(name);
        p
    }

    /// Lists every resource.
    pub fn list() -> (r: Invocation)
        ensures
            r.runs(list_args()),
    {
        let args = vec![String::from_str("list"), String::from_str("-p")];
        assert(args.deep_view() =~= list_args());
        Self::tool(args)
    }

    /// Destroys `name` under `pool`.
    pub fn destroy(pool: &str, name: &str) -> (r: Invocation)
        ensures
            r.runs(destroy_args(pool@, name@)),
    {
        let args = vec![String::from_str("destroy"), Self::path(pool, name)];
        assert(args.deep_view() =~= destroy_args(pool@, name@));
        Self::tool(args)
    }

    /// Renames `from` to `to` under `pool`.
    pub fn rename(pool: &str, from: &str, to: &str) -> (r: Invocation)
        ensures
            r.runs(rename_args(pool@, from@, to@)),
    {
        let args = vec![String::from_str("rename"), Self::path(pool, from), Self::path(pool, to)];
        assert(args.deep_view() =~= rename_args(pool@, from@, to@));
        Self::tool(args)
    }

    /// Sets the property `key` of `name` under `pool` to `value`.
    pub fn set(pool: &str, name: &str, key: &str, value: &str) -> (r: Invocation)
        ensures
            r.runs(set_args(pool@, name@, key@, value@)),
    {
        let mut text = String::from_str(key);
        push_char(&mut text, '=');
        text.append(value);
        assert(text@ =~= crate::runner::option_text(key@, value@));
        let args = vec![String::from_str("set"), text, Self::path(pool, name)];
        assert(args.deep_view() =~= set_args(pool@, name@, key@, value@));
        Self::tool(args)
    }

    /// Creates the dataset `name` under `pool`, with `options` where given.
    pub fn create_dataset(pool: &str, name: &str, options: Option<CommandOptions>) -> (r:
        Invocation)
        ensures
            r.runs(
                create_dataset_args(
                    pool@,
                    name@,
                    options_view(options),
                ),
            ),
    {
        let mut args = vec![String::from_str("create"), Self::path(pool, name)];
        let ghost head = args.deep_view();
        let ghost opts = options_view(options);
        if let Some(options) = options {
            let mut extra = options.to_options();
            let ghost tail = extra.deep_view();
            args.append(&mut extra);
            assert(args.deep_view() =~= head + tail);
        } else {
            assert(options_args(opts) =~= Seq::empty());
        }
        assert(args.deep_view() =~= create_dataset_args(pool@, name@, opts));
        Self::tool(args)
    }

    /// Creates the volume `name` of `size` bytes under `pool`, with `options`
    /// where given.
    pub fn create_volume(pool: &str, name: &str, size: u64, options: Option<CommandOptions>) -> (r:
        Invocation)
        ensures
            r.runs(
                create_volume_args(
                    pool@,
                    name@,
                    size,
                    options_view(options),
                ),
            ),
    {
        let mut digits: Vec<char> = Vec::new();
        push_decimal(size, &mut digits);
        assert(digits@ =~= decimal(size as nat));
        let mut args = vec![
            String::from_str("create"),
            String::from_str("-V"),
            string_of(&digits),
            Self::path(pool, name),
        ];
        let ghost head = args.deep_view();
        let ghost opts = options_view(options);
        if let Some(options) = options {
            let mut extra = options.to_options();
            let ghost tail = extra.deep_view();
            args.append(&mut extra);
            assert(args.deep_view() =~= head + tail);
        } else {
            assert(options_args(opts) =~= Seq::empty());
        }
        assert(args.deep_view() =~= create_volume_args(pool@, name@, size, opts));
        Self::tool(args)
    }
}

/// A namespace of the tool: every operation is scoped to resources under its
/// name. A pool holds no state of the resources; every operation asks the
/// tool afresh.
#[derive(Debug, Clone)]
pub struct Pool {
    name: String,
}

impl View for Pool {
    type V = Seq<char>;

    /// The pool's name.
    closed spec fn view(&self) -> Seq<char> {
        self.name@
    }
}

impl Pool {
    /// The pool named `name`.
    pub fn new(name: &str) -> (r: Pool)
        ensures
            r@ == name@,
    {
        Pool { name: String::from_str(name) }
    }

    /// The pool's name.
    pub fn name(&self) -> (r: &str)
        ensures
            r@ == self@,
    {
        self.name.as_str()
    }

    /// The run that creates the dataset `info`: `create <pool>/<name>`, with
    /// `-o quota=<quota>` where it has a quota.
    pub fn create_dataset(&self, info: &Dataset) -> (r: Invocation)
        ensures
            r.runs(create_dataset_args(self@, info.name@, dataset_options(info.quota.deep_view()))),
    {
        let mut options: Option<CommandOptions> = None;
        if let Some(quota) = &info.quota {
            let mut tmp = CommandOptions::new();
            tmp.insert(String::from_str("quota"), quota.clone());
            assert(tmp@ =~= dataset_options(info.quota.deep_view()));
            options = Some(tmp);
        }
        Controller::create_dataset(self.name.as_str(), info.name.as_str(), options)
    }

    /// The run that creates the volume `info`: `create -V <size> <pool>/<name>`.
    pub fn create_volume(&self, info: &Volume) -> (r: Invocation)
        ensures
            r.runs(create_volume_args(self@, info.name@, info.size, Seq::empty())),
    {
        Controller::create_volume(self.name.as_str(), info.name.as_str(), info.size, None)
    }

    /// The run that destroys `name`: `destroy <pool>/<name>`. Destroying a
    /// resource that is not there is the tool's error, handed on as it is.
    pub fn destroy(&self, name: String) -> (r: Invocation)
        ensures
            r.runs(destroy_args(self@, name@)),
    {
        Controller::destroy(self.name.as_str(), name.as_str())
    }

    /// The runs that apply `change`, in order: a rename where the name
    /// changes, then the new quota where one is given. Each is a separate
    /// run of the tool; a failed run leaves the ones before it applied.
    pub fn modify_dataset(&self, change: &ModifyDataset) -> (r: Vec<Invocation>)
        ensures
            runs_all(
                r@,
                modify_dataset_runs(
                    self@,
                    change.name@,
                    change.modifications.name@,
                    change.modifications.quota.deep_view(),
                ),
            ),
    {
        let mut runs: Vec<Invocation> = Vec::new();
        let to = &change.modifications.name;
        if change.name != *to {
            runs.push(Controller::rename(self.name.as_str(), change.name.as_str(), to.as_str()));
        }
        if let Some(quota) = &change.modifications.quota {
            runs.push(Controller::set(self.name.as_str(), to.as_str(), "quota", quota.as_str()));
        }
        let ghost want = modify_dataset_runs(
            self@,
            change.name@,
            change.modifications.name@,
            change.modifications.quota.deep_view(),
        );
        assert(runs@.len() == want.len());
        assert forall|i: int| 0 <= i < runs@.len() implies #[trigger] runs@[i].runs(want[i]) by {}
        runs
    }

    /// The runs that apply `change`, in order: a rename where the name
    /// changes, then the new size.
    pub fn modify_volume(&self, change: &ModifyVolume) -> (r: Vec<Invocation>)
        ensures
            runs_all(
                r@,
                modify_volume_runs(
                    self@,
                    change.name@,
                    change.modifications.name@,
                    change.modifications.size,
                ),
            ),
    {
        let mut runs: Vec<Invocation> = Vec::new();
        let to = &change.modifications.name;
        if change.name != *to {
            runs.push(Controller::rename(self.name.as_str(), change.name.as_str(), to.as_str()));
        }
        let mut digits: Vec<char> = Vec::new();
        push_decimal(change.modifications.size, &mut digits);
        let size = string_of(&digits);
        runs.push(Controller::set(self.name.as_str(), to.as_str(), "volsize", size.as_str()));
        let ghost want = modify_volume_runs(
            self@,
            change.name@,
            change.modifications.name@,
            change.modifications.size,
        );
        assert(runs@.len() == want.len());
        assert forall|i: int| 0 <= i < runs@.len() implies #[trigger] runs@[i].runs(want[i]) by {}
        runs
    }

    /// The run whose output `list` reads: every resource, sizes in bytes.
    pub fn list_command(&self) -> (r: Invocation)
        ensures
            r.runs(list_args()),
    {
        Controller::list()
    }

    /// The records of this pool in `output`, the text that a run of
    /// `list_command` printed: only resources under the pool, and only those
    /// under `<pool>/<filter>` where a filter is given, the pool's own entry
    /// left out. A numeric column of such a row that cannot be read fails
    /// the whole listing with `ParseFailed`.
    pub fn list(&self, filter: Option<String>, output: &str) -> (r: Result<Vec<ZFSStat>, Error>)
        ensures
            match listed(self@, filter.deep_view(), output@) {
                Some(v) => r matches Ok(recs) && stats_view(recs@) == v,
                None => r matches Err(Error::ParseFailed(_)),
            },
    {
        parse_listing(self.name.as_str(), &filter, output)
    }
}

} // verus!

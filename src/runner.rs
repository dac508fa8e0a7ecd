//! Running the dataset tool: the argument lists it is handed, the options
//! that go with them, and what one run of it comes to.
use vstd::prelude::*;
use vstd::utf8::{decode_utf8, valid_utf8};

use crate::text::push_char;

verus! {

/// Why an operation on the pool failed.
#[derive(Debug, Clone, PartialEq, Eq)]
pub enum Error {
    /// The tool could not be started; the text says why.
    LaunchFailed(String),
    /// The tool ran and refused the operation; the text is what it printed
    /// on its standard error.
    ToolFailed(String),
    /// The tool printed bytes that are not UTF-8 text.
    DecodeFailed,
    /// A numeric column of the listing could not be read; the text is that
    /// column.
    ParseFailed(String),
}

impl Error {
    /// The text that reports the failure.
    pub open spec fn spec_message(&self) -> Seq<char> {
        match self {
            Error::LaunchFailed(m) => "cannot start the tool: "@ + m@,
            Error::ToolFailed(m) => m@,
            Error::DecodeFailed => "the tool printed text that is not UTF-8"@,
            Error::ParseFailed(t) => "unreadable number in the listing: "@ + t@,
        }
    }

    /// The text that reports the failure; a refusal of the tool is reported
    /// by what the tool printed, as it printed it.
    pub fn message(&self) -> (r: String)
        ensures
            r@ == self.spec_message(),
    {
        match self {
            Error::LaunchFailed(m) => String::from_str("cannot start the tool: ").concat(m.as_str()),
            Error::ToolFailed(m) => m.clone(),
            Error::DecodeFailed => String::from_str("the tool printed text that is not UTF-8"),
            Error::ParseFailed(t) => String::from_str("unreadable number in the listing: ").concat(
                t.as_str(),
            ),
        }
    }
}

/// A run of the tool that ended: whether it exited with success, and the
/// bytes that it printed on its standard output and its standard error.
#[derive(Debug, Clone)]
pub struct Finished {
    pub success: bool,
    pub stdout: Vec<u8>,
    pub stderr: Vec<u8>,
}

/// Relies on `String::from_utf8`: it succeeds exactly on bytes that are valid
/// UTF-8, and the string then holds the characters that they encode.
#[verifier::external_body]
fn utf8_text(bytes: Vec<u8>) -> (r: Option<String>)
    ensures
        r is Some <==> valid_utf8(bytes@),
        r matches Some(s) ==> s@ == decode_utf8(bytes@),
{
    String::from_utf8(bytes).ok()
}

/// What a run of the tool comes to. `run` is `Err` with the reason when the
/// tool could not be started. On success the result is the text of the
/// standard output; on failure the text of the standard error is handed on as
/// `ToolFailed`. Output that is not UTF-8 gives `DecodeFailed`.
pub fn outcome(run: Result<Finished, String>) -> (r: Result<String, Error>)
    ensures
        run matches Err(m) ==> r == Err::<String, Error>(Error::LaunchFailed(m)),
        run matches Ok(f) ==> {
            if f.success {
                if valid_utf8(f.stdout@) {
                    r matches Ok(s) && s@ == decode_utf8(f.stdout@)
                } else {
                    r matches Err(Error::DecodeFailed)
                }
            } else {
                if valid_utf8(f.stderr@) {
                    r matches Err(Error::ToolFailed(m)) && m@ == decode_utf8(f.stderr@)
                } else {
                    r matches Err(Error::DecodeFailed)
                }
            }
        },
{
    match run {
        Err(m) => Err(Error::LaunchFailed(m)),
        Ok(f) => {
            if f.success {
                match utf8_text(f.stdout) {
                    Some(s) => Ok(s),
                    None => Err(Error::DecodeFailed),
                }
            } else {
                match utf8_text(f.stderr) {
                    Some(m) => Err(Error::ToolFailed(m)),
                    None => Err(Error::DecodeFailed),
                }
            }
        },
    }
}

/// The `key=value` argument of one option.
pub open spec fn option_text(key: Seq<char>, value: Seq<char>) -> Seq<char> {
    key + seq!['='] + value
}

/// The arguments that hand the options `opts` to the tool: `-o key=value`
/// for each, in order.
pub open spec fn options_args(opts: Seq<(Seq<char>, Seq<char>)>) -> Seq<Seq<char>>
    decreases opts.len(),
{
    if opts.len() == 0 {
        Seq::empty()
    } else {
        options_args(opts.drop_last()) + seq!["-o"@, option_text(opts.last().0, opts.last().1)]
    }
}

/// `opts` with `value` under `key`: the entry of `key` replaced where there
/// is one, else a new entry at the end.
pub open spec fn with_option(
    opts: Seq<(Seq<char>, Seq<char>)>,
    key: Seq<char>,
    value: Seq<char>,
) -> Seq<(Seq<char>, Seq<char>)> {
    if exists|i: int| 0 <= i < opts.len() && opts[i].0 == key {
        let i = choose|i: int| 0 <= i < opts.len() && opts[i].0 == key;
        opts.update(i, (key, value))
    } else {
        opts.push((key, value))
    }
}

/// Options handed to the tool when a resource is created, each key at most
/// once.
#[derive(Debug, Clone)]
pub struct CommandOptions {
    entries: Vec<(String, String)>,
}

impl View for CommandOptions {
    type V = Seq<(Seq<char>, Seq<char>)>;

    closed spec fn view(&self) -> Seq<(Seq<char>, Seq<char>)> {
        self.entries@.map_values(|e: (String, String)| (e.0@, e.1@))
    }
}

impl CommandOptions {
    /// No key appears twice.
    pub open spec fn wf(&self) -> bool {
        forall|i: int, j: int|
            0 <= i < self@.len() && 0 <= j < self@.len() && i != j ==> #[trigger] self@[i].0
                != #[trigger] self@[j].0
    }

    /// No options.
    pub fn new() -> (r: CommandOptions)
        ensures
            r.wf(),
            r@ == Seq::<(Seq<char>, Seq<char>)>::empty(),
    {
        let r = CommandOptions { entries: Vec::new() };
        assert(r@ =~= Seq::<(Seq<char>, Seq<char>)>::empty());
        r
    }

    /// Sets `key` to `value`, in place of the value it had.
    pub fn insert(&mut self, key: String, value: String)
        requires
            old(self).wf(),
        ensures
            final(self).wf(),
            final(self)@ == with_option(old(self)@, key@, value@),
    {
        let ghost before = self@;
        let mut i: usize = 0;
        while i < self.entries.len()
            invariant
                i <= self.entries.len(),
                self@ == before,
                before == old(self)@,
                self.wf(),
                forall|j: int| 0 <= j < i ==> before[j].0 != key@,
            decreases self.entries.len() - i,
        {
            if self.entries[i].0 == key {
                assert(self@[i as int].0 == key@);
                self.entries.set(i, (key, value));
                proof {
                    assert(0 <= i < before.len() && before[i as int].0 == key@);
                    let k = choose|k: int| 0 <= k < before.len() && before[k].0 == key@;
                    assert(k == i);
                    assert(self@ =~= before.update(i as int, (key@, value@)));
                    assert(self@ == with_option(before, key@, value@));
                }
                return;
            }
            i = i + 1;
        }
        self.entries.push((key, value));
        assert(self@ =~= before.push((key@, value@)));
    }

    /// The arguments that hand these options to the tool.
    pub fn to_options(&self) -> (r: Vec<String>)
        ensures
            r.deep_view() == options_args(self@),
    {
        let mut args: Vec<String> = Vec::new();
        let mut i: usize = 0;
        while i < self.entries.len()
            invariant
                i <= self.entries.len(),
                args.deep_view() == options_args(self@.take(i as int)),
            decreases self.entries.len() - i,
        {
            let ghost dv = args.deep_view();
            assert(self@.take(i + 1).drop_last() == self@.take(i as int));
            let ghost last = self@[i as int];
            assert(self@.take(i + 1).last() == last);
            assert(last == (self.entries@[i as int].0@, self.entries@[i as int].1@));
            let mut text = self.entries[i].0.clone();
            push_char(&mut text, '=');
            text.append(self.entries[i].1.as_str());
            assert(text@ == option_text(last.0, last.1));
            let flag = String::from_str("-o");
            assert(flag@ == "-o"@);
            args.push(flag);
            args.push(text);
            assert(args.deep_view() =~= options_args(self@.take(i + 1)));
            i = i + 1;
        }
        assert(self@.take(self.entries.len() as int) == self@);
        args
    }
}

} // verus!

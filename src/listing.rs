//! Reading the tool's listing: one header line, then rows of blank-separated
//! columns `name used available referenced mountpoint`, of which only those
//! under the pool (and under the filter, where one is given) are kept.
use vstd::prelude::*;

use crate::runner::Error;
use crate::text::{
    chars_from, chars_of, has_prefix, is_word, lemma_lines_of_two, lemma_tokens_of_row, lines,
    one_line, parse_u64, row_of, split_lines, split_tokens, starts_with, string_of, tokens, u64_of,
};
use crate::zfs::{
    create_dataset_args, create_volume_args, dataset_options, destroy_args, resource_path,
    stats_view, StatModel, ZFSKind, ZFSStat,
};

verus! {

/// The mountpoint column of a resource that has none: a volume.
pub open spec fn no_mountpoint() -> Seq<char> {
    seq!['-']
}

/// The row with columns `toks` names a resource under `pool`, and under
/// `pool/filter` where a filter is given. Rows with fewer than five columns
/// are not records.
pub open spec fn row_selected(
    pool: Seq<char>,
    filter: Option<Seq<char>>,
    toks: Seq<Seq<char>>,
) -> bool {
    &&& toks.len() >= 5
    &&& starts_with(toks[0], pool.push('/'))
    &&& filter matches Some(f) ==> starts_with(toks[0], pool.push('/') + f)
}

/// The record that the row with columns `toks` reads as, or `None` where a
/// numeric column cannot be read or a dataset's size does not fit.
pub open spec fn row_record(pool: Seq<char>, toks: Seq<Seq<char>>) -> Option<StatModel> {
    let volume = toks[4] == no_mountpoint();
    match (u64_of(toks[1]), u64_of(toks[2]), u64_of(toks[3])) {
        (Some(used), Some(avail), Some(refer)) => {
            if !volume && used + avail > u64::MAX {
                None
            } else {
                Some(
                    StatModel {
                        kind: if volume {
                            ZFSKind::Volume
                        } else {
                            ZFSKind::Dataset
                        },
                        name: toks[0].skip((pool.len() + 1) as int),
                        full_name: toks[0],
                        size: if volume {
                            used
                        } else {
                            (used + avail) as u64
                        },
                        used,
                        avail,
                        refer,
                        mountpoint: if volume {
                            None
                        } else {
                            Some(toks[4])
                        },
                    },
                )
            }
        },
        _ => None,
    }
}

/// The records of `rows`, in order, or `None` where a selected row cannot be
/// read.
pub open spec fn rows_listed(
    pool: Seq<char>,
    filter: Option<Seq<char>>,
    rows: Seq<Seq<char>>,
) -> Option<Seq<StatModel>>
    decreases rows.len(),
{
    if rows.len() == 0 {
        Some(Seq::empty())
    } else {
        let prev = rows_listed(pool, filter, rows.drop_last());
        let toks = tokens(rows.last());
        if !row_selected(pool, filter, toks) {
            prev
        } else {
            match (prev, row_record(pool, toks)) {
                (Some(p), Some(r)) => Some(p.push(r)),
                _ => None,
            }
        }
    }
}

/// The records that the listing `output` reads as: every line after the
/// header is a row.
pub open spec fn listed(
    pool: Seq<char>,
    filter: Option<Seq<char>>,
    output: Seq<char>,
) -> Option<Seq<StatModel>> {
    rows_listed(pool, filter, lines(output).drop_first())
}

/// A row that cannot be read spoils every longer listing.
pub proof fn lemma_rows_listed_failure(
    pool: Seq<char>,
    filter: Option<Seq<char>>,
    rows: Seq<Seq<char>>,
    k: int,
)
    requires
        0 <= k <= rows.len(),
        rows_listed(pool, filter, rows.take(k)) is None,
    ensures
        rows_listed(pool, filter, rows) is None,
    decreases rows.len(),
{
    if k < rows.len() {
        assert(rows.drop_last().take(k) == rows.take(k));
        lemma_rows_listed_failure(pool, filter, rows.drop_last(), k);
    } else {
        assert(rows.take(k) == rows);
    }
}

/// The record of the selected row `toks`, as `row_record` describes.
fn read_row(pool_len: usize, toks: &Vec<Vec<char>>) -> (r: Result<ZFSStat, Error>)
    requires
        toks.len() >= 5,
        pool_len < toks@[0].len(),
    ensures
        forall|pool: Seq<char>|
            pool.len() == pool_len ==> match #[trigger] row_record(pool, toks.deep_view()) {
                Some(m) => r matches Ok(s) && s@ == m,
                None => r matches Err(Error::ParseFailed(_)),
            },
{
    let ghost t = toks.deep_view();
    proof {
        crate::text::lemma_chars_deep_view(toks@[0]);
        crate::text::lemma_chars_deep_view(toks@[1]);
        crate::text::lemma_chars_deep_view(toks@[2]);
        crate::text::lemma_chars_deep_view(toks@[3]);
        crate::text::lemma_chars_deep_view(toks@[4]);
    }
    let used = match parse_u64(&toks[1]) {
        Some(v) => v,
        None => {
            return Err(Error::ParseFailed(string_of(&toks[1])));
        },
    };
    let avail = match parse_u64(&toks[2]) {
        Some(v) => v,
        None => {
            return Err(Error::ParseFailed(string_of(&toks[2])));
        },
    };
    let refer = match parse_u64(&toks[3]) {
        Some(v) => v,
        None => {
            return Err(Error::ParseFailed(string_of(&toks[3])));
        },
    };
    let volume = toks[4].len() == 1 && toks[4][0] == '-';
    assert(volume == (t[4] == no_mountpoint())) by {
        if t[4].len() == 1 && t[4][0] == '-' {
            assert(t[4] =~= no_mountpoint());
        }
    }
    let size = if volume {
        used
    } else {
        match used.checked_add(avail) {
            Some(v) => v,
            None => {
                return Err(Error::ParseFailed(string_of(&toks[2])));
            },
        }
    };
    Ok(
        ZFSStat {
            kind: if volume {
                ZFSKind::Volume
            } else {
                ZFSKind::Dataset
            },
            name: string_of(&chars_from(&toks[0], pool_len + 1)),
            full_name: string_of(&toks[0]),
            size,
            used,
            avail,
            refer,
            mountpoint: if volume {
                None
            } else {
                Some(string_of(&toks[4]))
            },
        },
    )
}

/// The records of the listing `output` for `pool`, as `listed` describes;
/// `ParseFailed` where a selected row cannot be read.
pub fn parse_listing(pool: &str, filter: &Option<String>, output: &str) -> (r: Result<
    Vec<ZFSStat>,
    Error,
>)
    ensures
        match listed(pool@, filter.deep_view(), output@) {
            Some(v) => r matches Ok(recs) && stats_view(recs@) == v,
            None => r matches Err(Error::ParseFailed(_)),
        },
{
    let text = chars_of(output);
    let all = split_lines(&text);
    let ghost rows = lines(output@).drop_first();
    let mut under = chars_of(pool);
    under.push('/');
    let scope = match filter {
        Some(f) => {
            let mut s = under.clone();
            let mut fc = chars_of(f.as_str());
            s.append(&mut fc);
            s
        },
        None => under.clone(),
    };
    let ghost fv = filter.deep_view();
    assert(under@ == pool@.push('/'));
    assert(fv matches Some(f) ==> scope@ == pool@.push('/') + f);
    assert(fv is None ==> scope@ == pool@.push('/'));
    let mut ret: Vec<ZFSStat> = Vec::new();
    let mut i: usize = 1;
    proof {
        crate::text::lemma_lines_nonempty(output@);
        assert(rows.take(0) =~= Seq::<Seq<char>>::empty());
        assert(stats_view(ret@) =~= Seq::<StatModel>::empty());
    }
    while i < all.len()
        invariant
            1 <= i <= all.len(),
            all.deep_view() == lines(output@),
            rows == lines(output@).drop_first(),
            under@ == pool@.push('/'),
            fv == filter.deep_view(),
            fv matches Some(f) ==> scope@ == pool@.push('/') + f,
            fv is None ==> scope@ == pool@.push('/'),
            rows_listed(pool@, fv, rows.take(i - 1)) == Some(stats_view(ret@)),
        decreases all.len() - i,
    {
        let toks = split_tokens(&all[i]);
        let ghost row = rows[i - 1];
        assert(row == all@[i as int]@) by {
            crate::text::lemma_chars_deep_view(all@[i as int]);
        }
        assert(rows.take(i as int).drop_last() == rows.take(i - 1));
        assert(rows.take(i as int).last() == row);
        let ghost tv = toks.deep_view();
        if toks.len() >= 5 {
            proof {
                crate::text::lemma_chars_deep_view(toks@[0]);
            }
            let in_pool = has_prefix(&toks[0], &under);
            let in_scope = has_prefix(&toks[0], &scope);
            assert(row_selected(pool@, fv, tv) == (in_pool && in_scope));
            if in_pool && in_scope {
                match read_row(under.len() - 1, &toks) {
                    Ok(stat) => {
                        let ghost before = stats_view(ret@);
                        ret.push(stat);
                        assert(stats_view(ret@) =~= before.push(stat@));
                    },
                    Err(e) => {
                        proof {
                            lemma_rows_listed_failure(pool@, fv, rows, i as int);
                        }
                        return Err(e);
                    },
                }
            }
        }
        i = i + 1;
    }
    assert(rows.take(all.len() - 1) =~= rows);
    Ok(ret)
}

/// Beginning with `p + f` is beginning with `p` and then, after it, with `f`.
pub proof fn lemma_starts_with_concat(t: Seq<char>, p: Seq<char>, f: Seq<char>)
    ensures
        starts_with(t, p + f) <==> (starts_with(t, p) && starts_with(t.skip(p.len() as int), f)),
{
    if starts_with(t, p + f) {
        assert(t.take(p.len() as int) =~= (p + f).take(p.len() as int));
        assert(t.take(p.len() as int) =~= p);
        assert(t.skip(p.len() as int).take(f.len() as int) =~= f) by {
            assert forall|i: int| 0 <= i < f.len() implies t.skip(p.len() as int).take(
                f.len() as int,
            )[i] == f[i] by {
                assert(t.take((p + f).len() as int)[p.len() + i] == (p + f)[p.len() + i]);
            }
        }
    }
    if starts_with(t, p) && starts_with(t.skip(p.len() as int), f) {
        assert(t.take((p + f).len() as int) =~= p + f) by {
            assert forall|i: int| 0 <= i < (p + f).len() implies t.take((p + f).len() as int)[i]
                == (p + f)[i] by {
                if i < p.len() {
                    assert(t.take(p.len() as int)[i] == p[i]);
                } else {
                    assert(t.skip(p.len() as int).take(f.len() as int)[i - p.len()] == f[i
                        - p.len()]);
                }
            }
        }
    }
}

/// Filtering by `f` keeps exactly the records, among those of the unfiltered
/// reading of the same rows, whose name under the pool begins with `f`.
pub proof fn lemma_rows_listed_filter(pool: Seq<char>, f: Seq<char>, rows: Seq<Seq<char>>)
    requires
        rows_listed(pool, None, rows) is Some,
    ensures
        rows_listed(pool, Some(f), rows) == Some(
            rows_listed(pool, None, rows)->0.filter(|r: StatModel| starts_with(r.name, f)),
        ),
    decreases rows.len(),
{
    reveal(Seq::filter);
    if rows.len() > 0 {
        let toks = tokens(rows.last());
        lemma_rows_listed_filter(pool, f, rows.drop_last());
        let keep = |r: StatModel| starts_with(r.name, f);
        let p = rows_listed(pool, None, rows.drop_last())->0;
        if row_selected(pool, None, toks) {
            lemma_starts_with_concat(toks[0], pool.push('/'), f);
            let r = row_record(pool, toks)->0;
            assert(rows_listed(pool, None, rows) == Some(p.push(r)));
            assert(r.name == toks[0].skip(pool.push('/').len() as int));
            assert(row_selected(pool, Some(f), toks) == keep(r));
            assert(p.push(r).drop_last() =~= p);
            assert(p.push(r).last() == r);
            assert(p.push(r).filter(keep) == if keep(r) {
                p.filter(keep).push(r)
            } else {
                p.filter(keep)
            });
        } else {
            assert(!row_selected(pool, Some(f), toks));
        }
    } else {
        assert(Seq::<StatModel>::empty().filter(|r: StatModel| starts_with(r.name, f))
            =~= Seq::<StatModel>::empty());
    }
}

/// A listing filtered by `filter` holds exactly the records of the
/// unfiltered listing of the same output whose name under the pool begins
/// with `filter`, in the same order. (Where the unfiltered listing fails on
/// an unreadable row outside the filter, the filtered one may still succeed,
/// so the law is stated where the unfiltered listing succeeds.)
pub proof fn lemma_filter_is_prefix_subset(pool: Seq<char>, filter: Seq<char>, output: Seq<char>)
    requires
        listed(pool, None, output) is Some,
    ensures
        listed(pool, Some(filter), output) == Some(
            listed(pool, None, output)->0.filter(|r: StatModel| starts_with(r.name, filter)),
        ),
{
    lemma_rows_listed_filter(pool, filter, lines(output).drop_first());
}

/// A word has no newline.
proof fn lemma_word_one_line(w: Seq<char>)
    requires
        is_word(w),
    ensures
        one_line(w),
{
    assert forall|i: int| 0 <= i < w.len() implies #[trigger] w[i] != '\n' by {
        assert(is_word(w));
    }
}

/// The listing made of a header and the one row of the resource `name`,
/// read with or without the filter `name`, is the record of that row alone.
proof fn lemma_single_row(
    pool: Seq<char>,
    name: Seq<char>,
    header: Seq<char>,
    cols: Seq<Seq<char>>,
    filter: Option<Seq<char>>,
)
    requires
        one_line(header),
        cols.len() == 5,
        cols[0] == resource_path(pool, name),
        forall|i: int| 0 <= i < 5 ==> is_word(#[trigger] cols[i]),
        filter is None || filter == Some(name),
        row_record(pool, cols) is Some,
    ensures
        listed(pool, filter, header + seq!['\n'] + row_of(cols[0], cols[1], cols[2], cols[3], cols[4]))
            == Some(seq![row_record(pool, cols)->0]),
{
    let row = row_of(cols[0], cols[1], cols[2], cols[3], cols[4]);
    assert(is_word(cols[0]) && is_word(cols[1]) && is_word(cols[2]) && is_word(cols[3]) && is_word(
        cols[4],
    ));
    lemma_tokens_of_row(cols[0], cols[1], cols[2], cols[3], cols[4]);
    assert(seq![cols[0], cols[1], cols[2], cols[3], cols[4]] =~= cols);
    assert(one_line(row)) by {
        assert forall|i: int| 0 <= i < row.len() implies #[trigger] row[i] != '\n' by {
            lemma_word_one_line(cols[0]);
            lemma_word_one_line(cols[1]);
            lemma_word_one_line(cols[2]);
            lemma_word_one_line(cols[3]);
            lemma_word_one_line(cols[4]);
        }
    }
    lemma_lines_of_two(header, row);
    let rows = seq![header, row].drop_first();
    assert(rows =~= seq![row]);
    assert(rows.drop_last() =~= Seq::<Seq<char>>::empty());
    let under = pool.push('/');
    assert(cols[0].take(under.len() as int) =~= under);
    assert(cols[0].take((under + name).len() as int) =~= under + name);
    assert(row_selected(pool, filter, cols));
    let rec = row_record(pool, cols)->0;
    assert(Seq::<StatModel>::empty().push(rec) =~= seq![rec]);
    assert(rows.last() == row);
    assert(tokens(rows.last()) == cols);
    assert(rows_listed(pool, filter, rows.drop_last()) == Some(Seq::<StatModel>::empty()));
    assert(rows_listed(pool, filter, rows) == Some(seq![rec]));
    let output = header + seq!['\n'] + row;
    assert(lines(output).drop_first() == rows);
}

/// A dataset reads back as it was created: in a listing whose one row is
/// the tool's row for the path that `create_dataset` handed it (with a
/// mountpoint), both the unfiltered listing and the listing filtered by the
/// dataset's name hold exactly one record, a dataset whose name under the
/// pool is the created name, whose full name is that path, whose size is
/// `used + avail` and whose mountpoint is the one listed.
pub proof fn lemma_created_dataset_listed(
    pool: Seq<char>,
    name: Seq<char>,
    header: Seq<char>,
    used: Seq<char>,
    avail: Seq<char>,
    refer: Seq<char>,
    mountpoint: Seq<char>,
)
    requires
        one_line(header),
        is_word(resource_path(pool, name)),
        is_word(used),
        is_word(avail),
        is_word(refer),
        is_word(mountpoint),
        mountpoint != no_mountpoint(),
        u64_of(used) is Some,
        u64_of(avail) is Some,
        u64_of(refer) is Some,
        u64_of(used)->0 + u64_of(avail)->0 <= u64::MAX,
    ensures
        ({
            let path = create_dataset_args(pool, name, dataset_options(None))[1];
            let output = header + seq!['\n'] + row_of(path, used, avail, refer, mountpoint);
            let record = StatModel {
                kind: ZFSKind::Dataset,
                name: name,
                full_name: path,
                size: (u64_of(used)->0 + u64_of(avail)->0) as u64,
                used: u64_of(used)->0,
                avail: u64_of(avail)->0,
                refer: u64_of(refer)->0,
                mountpoint: Some(mountpoint),
            };
            &&& path == resource_path(pool, name)
            &&& listed(pool, None, output) == Some(seq![record])
            &&& listed(pool, Some(name), output) == Some(seq![record])
        }),
{
    let path = resource_path(pool, name);
    assert(create_dataset_args(pool, name, dataset_options(None))[1] == path);
    let cols = seq![path, used, avail, refer, mountpoint];
    assert(path.skip((pool.len() + 1) as int) =~= name);
    lemma_single_row(pool, name, header, cols, None);
    lemma_single_row(pool, name, header, cols, Some(name));
}

/// A volume reads back as it was created: in a listing whose one row is the
/// tool's row for the path that `create_volume` handed it (with `-` for a
/// mountpoint), both the unfiltered listing and the listing filtered by the
/// volume's name hold exactly one record, a volume whose name under the pool
/// is the created name, whose full name is that path, with no mountpoint and
/// with its size equal to its used bytes.
pub proof fn lemma_created_volume_listed(
    pool: Seq<char>,
    name: Seq<char>,
    size: u64,
    header: Seq<char>,
    used: Seq<char>,
    avail: Seq<char>,
    refer: Seq<char>,
)
    requires
        one_line(header),
        is_word(resource_path(pool, name)),
        is_word(used),
        is_word(avail),
        is_word(refer),
        u64_of(used) is Some,
        u64_of(avail) is Some,
        u64_of(refer) is Some,
    ensures
        ({
            let path = create_volume_args(pool, name, size, Seq::empty())[3];
            let output = header + seq!['\n'] + row_of(path, used, avail, refer, no_mountpoint());
            let record = StatModel {
                kind: ZFSKind::Volume,
                name: name,
                full_name: path,
                size: u64_of(used)->0,
                used: u64_of(used)->0,
                avail: u64_of(avail)->0,
                refer: u64_of(refer)->0,
                mountpoint: None,
            };
            &&& path == resource_path(pool, name)
            &&& listed(pool, None, output) == Some(seq![record])
            &&& listed(pool, Some(name), output) == Some(seq![record])
        }),
{
    let path = resource_path(pool, name);
    assert(create_volume_args(pool, name, size, Seq::empty())[3] == path);
    let dash = no_mountpoint();
    assert(is_word(dash));
    let cols = seq![path, used, avail, refer, dash];
    assert(path.skip((pool.len() + 1) as int) =~= name);
    lemma_single_row(pool, name, header, cols, None);
    lemma_single_row(pool, name, header, cols, Some(name));
}

/// A destroyed resource is not listed: where no row of the listing names
/// the path that `destroy(name)` handed the tool, nor a path that begins with
/// it (a resource whose name extends `name`, such as `name2`, would still be
/// listed), the listing filtered by `name` is empty.
pub proof fn lemma_destroyed_not_listed(pool: Seq<char>, name: Seq<char>, output: Seq<char>)
    requires
        forall|i: int|
            0 <= i < lines(output).drop_first().len() ==> {
                let toks = #[trigger] tokens(lines(output).drop_first()[i]);
                toks.len() >= 1 ==> !starts_with(toks[0], destroy_args(pool, name)[1])
            },
    ensures
        listed(pool, Some(name), output) == Some(Seq::<StatModel>::empty()),
{
    let rows = lines(output).drop_first();
    assert(destroy_args(pool, name)[1] == pool.push('/') + name);
    lemma_rows_unselected(pool, name, rows);
}

/// Rows none of which names a path beginning with `<pool>/<name>` give no
/// record under the filter `name`.
proof fn lemma_rows_unselected(pool: Seq<char>, name: Seq<char>, rows: Seq<Seq<char>>)
    requires
        forall|i: int|
            0 <= i < rows.len() ==> {
                let toks = #[trigger] tokens(rows[i]);
                toks.len() >= 1 ==> !starts_with(toks[0], pool.push('/') + name)
            },
    ensures
        rows_listed(pool, Some(name), rows) == Some(Seq::<StatModel>::empty()),
    decreases rows.len(),
{
    if rows.len() > 0 {
        let rest = rows.drop_last();
        assert forall|i: int| 0 <= i < rest.len() implies {
            let toks = #[trigger] tokens(rest[i]);
            toks.len() >= 1 ==> !starts_with(toks[0], pool.push('/') + name)
        } by {
            assert(rest[i] == rows[i]);
        }
        lemma_rows_unselected(pool, name, rest);
        let toks = tokens(rows[rows.len() - 1]);
        assert(!row_selected(pool, Some(name), toks));
    }
}

} // verus!

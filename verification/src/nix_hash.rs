//! Keeping the output hashes of a flake up to date.
//!
//! Each hash is replaced by a fake one, Nix is run and reports the right one, and the flake is
//! written with it. One hash is tried at a time, so that the report is about that one.
use crate::rows::{lemma_picks_next, lemma_picks_none, picks};
use crate::text::{
    chars_of, find, find_at, index_of, lines, lines_of, replace, replaced, same, split_once,
    starts_with, string_of, strip_prefix, trim, trimmed, views, has_prefix,
};
use vstd::prelude::*;

verus! {

pub const FLAKE_FILE: &'static str = "flake.nix";

pub const FAKE_HASH: &'static str = "sha256-AAAAAAAAAAAAAAAAAAAAAAAAAAAAAAAAAAAAAAAAAAA=";

/// What to build: the first argument after the program's name that is no option.
pub open spec fn target_in(args: Seq<Seq<char>>, i: int) -> Seq<char>
    decreases args.len() - i,
{
    if i < 0 || i >= args.len() {
        ".#default"@
    } else if !has_prefix(args[i], "-"@) {
        args[i]
    } else {
        target_in(args, i + 1)
    }
}

/// What to build.
pub fn target(args: &Vec<String>) -> (r: String)
    ensures
        r@ == target_in(views(args@), 1),
{
    let ghost all = views(args@);
    let mut i: usize = 1;
    while i < args.len()
        invariant
            1 <= i,
            all == views(args@),
            target_in(all, 1) == target_in(all, i as int),
        decreases args@.len() - i,
    {
        assert(all[i as int] == args@[i as int]@);
        if !starts_with(args[i].as_str(), "-") {
            return args[i].clone();
        }
        i += 1;
    }
    ".#default".to_owned()
}

/// What stands between the key and the hash of an entry, with the beginning of the hash.
pub const ENTRY_MIDDLE: &'static str = "\" = \"sha256-";

/// The key and the hash of a trimmed line of the form `"key" = "sha256-...";`.
pub open spec fn entry_of(t: Seq<char>) -> Option<(Seq<char>, Seq<char>)> {
    match find(t, ENTRY_MIDDLE@) {
        None => None,
        Some(i) => {
            let rest = t.skip(i + 5);
            let end = index_of(rest, '"');
            if t.len() > 0 && t[0] == '"' && end < rest.len() {
                Some((t.subrange(1, i), rest.take(end)))
            } else {
                None
            }
        },
    }
}

/// The entries of a row of lines, in their order.
pub open spec fn entries_in(rows: Seq<Seq<char>>) -> Seq<(Seq<char>, Seq<char>)>
    decreases rows.len(),
{
    if rows.len() == 0 {
        Seq::empty()
    } else {
        let before = entries_in(rows.drop_last());
        match entry_of(trimmed(rows.last())) {
            Some(e) => before.push(e),
            None => before,
        }
    }
}

/// No line has an entry whose key lacks its opening quote.
pub open spec fn keys_are_quoted(rows: Seq<Seq<char>>) -> bool {
    forall|i: int|
        0 <= i < rows.len() ==> find(trimmed(#[trigger] rows[i]), ENTRY_MIDDLE@) != Some(0int)
}

/// The texts of a row of pairs.
pub open spec fn pair_views(s: Seq<(String, String)>) -> Seq<(Seq<char>, Seq<char>)> {
    Seq::new(s.len(), |i: int| (s[i].0@, s[i].1@))
}

fn parse_entry(line: &str) -> (r: Option<(String, String)>)
    requires
        find(trimmed(line@), ENTRY_MIDDLE@) != Some(0int),
    ensures
        match r {
            Some((key, hash)) => entry_of(trimmed(line@)) == Some((key@, hash@)),
            None => entry_of(trimmed(line@)) is None,
        },
{
    let t = trim(line);
    let v = chars_of(t.as_str());
    let m = chars_of(ENTRY_MIDDLE);
    proof {
        reveal_strlit("\" = \"sha256-");
        crate::text::lemma_find_from(v@, m@, 0);
    }
    match find_at(&v, &m, 0) {
        None => None,
        Some(i) => {
            assert(m@.len() == 12);
            assert(i + 5 <= v@.len());
            if v[0] != '"' {
                return None;
            }
            let key = string_of(&v, 1, i);
            let rest = string_of(&v, i + 5, v.len());
            assert(rest@ =~= v@.skip(i + 5));
            match split_once(rest.as_str(), '"') {
                Some((hash, _)) => Some((key, hash)),
                None => {
                    proof {
                        crate::text::lemma_index_of_range(rest@, '"');
                    }
                    None
                },
            }
        },
    }
}

/// Whether every entry's key has its opening quote.
pub fn has_quoted_keys(content: &str) -> (r: bool)
    ensures
        r == keys_are_quoted(lines(content@)),
{
    let rows = lines_of(content);
    let m = chars_of(ENTRY_MIDDLE);
    let ghost all = views(rows@);
    let mut i: usize = 0;
    while i < rows.len()
        invariant
            i <= rows@.len(),
            all == views(rows@),
            all == lines(content@),
            m@ == ENTRY_MIDDLE@,
            forall|k: int|
                0 <= k < i ==> find(trimmed(#[trigger] all[k]), ENTRY_MIDDLE@) != Some(0int),
        decreases rows@.len() - i,
    {
        assert(all[i as int] == rows@[i as int]@);
        let t = trim(rows[i].as_str());
        let v = chars_of(t.as_str());
        if let Some(at) = find_at(&v, &m, 0) {
            if at == 0 {
                assert(find(trimmed(all[i as int]), ENTRY_MIDDLE@) == Some(0int));
                return false;
            }
        }
        i += 1;
    }
    true
}

/// The entries of a flake, in the order of the file. The same hash may stand there several times.
pub fn find_output_hashes(content: &str) -> (r: Vec<(String, String)>)
    requires
        keys_are_quoted(lines(content@)),
    ensures
        pair_views(r@) == entries_in(lines(content@)),
{
    let rows = lines_of(content);
    let ghost all = views(rows@);
    let mut out: Vec<(String, String)> = Vec::new();
    let mut i: usize = 0;
    assert(all.take(0) =~= Seq::<Seq<char>>::empty());
    assert(pair_views(out@) =~= Seq::<(Seq<char>, Seq<char>)>::empty());
    while i < rows.len()
        invariant
            i <= rows@.len(),
            all == views(rows@),
            all == lines(content@),
            keys_are_quoted(all),
            pair_views(out@) == entries_in(all.take(i as int)),
        decreases rows@.len() - i,
    {
        assert(all[i as int] == rows@[i as int]@);
        let ghost upto = all.take(i + 1);
        assert(upto.drop_last() =~= all.take(i as int));
        assert(upto.last() == rows@[i as int]@);
        let ghost before = pair_views(out@);
        if let Some(e) = parse_entry(rows[i].as_str()) {
            out.push(e);
            assert(pair_views(out@) =~= before.push((e.0@, e.1@)));
        }
        i += 1;
    }
    assert(all.take(all.len() as int) =~= all);
    out
}

/// One of the entries has the hash.
pub open spec fn has_hash(entries: Seq<(Seq<char>, Seq<char>)>, hash: Seq<char>) -> bool {
    exists|i: int| 0 <= i < entries.len() && (#[trigger] entries[i]).1 == hash
}

/// The entries with each hash once, where it first stands.
pub open spec fn distinct(entries: Seq<(Seq<char>, Seq<char>)>) -> Seq<(Seq<char>, Seq<char>)>
    decreases entries.len(),
{
    if entries.len() == 0 {
        entries
    } else {
        let before = distinct(entries.drop_last());
        if has_hash(before, entries.last().1) {
            before
        } else {
            before.push(entries.last())
        }
    }
}

fn contains_hash(entries: &Vec<(String, String)>, hash: &str) -> (r: bool)
    ensures
        r == has_hash(pair_views(entries@), hash@),
{
    let ghost all = pair_views(entries@);
    let mut i: usize = 0;
    while i < entries.len()
        invariant
            i <= entries@.len(),
            all == pair_views(entries@),
            forall|k: int| 0 <= k < i ==> (#[trigger] all[k]).1 != hash@,
        decreases entries@.len() - i,
    {
        if same(entries[i].1.as_str(), hash) {
            assert(all[i as int].1 == hash@);
            return true;
        }
        i += 1;
    }
    false
}

/// The entries with each hash once, so that each source is built once.
pub fn unique_hashes(entries: &Vec<(String, String)>) -> (r: Vec<(String, String)>)
    ensures
        pair_views(r@) == distinct(pair_views(entries@)),
{
    let ghost all = pair_views(entries@);
    let mut out: Vec<(String, String)> = Vec::new();
    let mut i: usize = 0;
    assert(all.take(0) =~= Seq::<(Seq<char>, Seq<char>)>::empty());
    assert(pair_views(out@) =~= Seq::<(Seq<char>, Seq<char>)>::empty());
    while i < entries.len()
        invariant
            i <= entries@.len(),
            all == pair_views(entries@),
            pair_views(out@) == distinct(all.take(i as int)),
        decreases entries@.len() - i,
    {
        let ghost upto = all.take(i + 1);
        assert(upto.drop_last() =~= all.take(i as int));
        assert(upto.last() == (entries@[i as int].0@, entries@[i as int].1@));
        let ghost before = pair_views(out@);
        if !contains_hash(&out, entries[i].1.as_str()) {
            out.push((entries[i].0.clone(), entries[i].1.clone()));
            assert(pair_views(out@) =~= before.push(all[i as int]));
        }
        i += 1;
    }
    assert(all.take(all.len() as int) =~= all);
    out
}

/// The hash in a trimmed line of Nix that reports the right one.
pub open spec fn got_hash(t: Seq<char>) -> Option<Seq<char>> {
    let hash = trimmed(t.skip("got:"@.len() as int));
    if has_prefix(t, "got:"@) && has_prefix(hash, "sha256-"@) {
        Some(hash)
    } else {
        None
    }
}

/// The first hash that a row of lines reports.
pub open spec fn reported(rows: Seq<Seq<char>>) -> Option<Seq<char>>
    decreases rows.len(),
{
    if rows.len() == 0 {
        None
    } else {
        match got_hash(trimmed(rows[0])) {
            Some(h) => Some(h),
            None => reported(rows.drop_first()),
        }
    }
}

/// The first hash that Nix reports as the right one.
pub fn extract_hash(output: &str) -> (r: Option<String>)
    ensures
        crate::text::opt_view(r) == reported(lines(output@)),
{
    let rows = lines_of(output);
    let ghost all = views(rows@);
    let mut i: usize = 0;
    assert(all.skip(0) =~= all);
    while i < rows.len()
        invariant
            i <= rows@.len(),
            all == views(rows@),
            all == lines(output@),
            reported(all) == reported(all.skip(i as int)),
        decreases rows@.len() - i,
    {
        let ghost rest = all.skip(i as int);
        assert(rest.drop_first() =~= all.skip(i + 1));
        assert(rest[0] == rows@[i as int]@);
        let t = trim(rows[i].as_str());
        if let Some(h) = strip_prefix(t.as_str(), "got:") {
            let hash = trim(h.as_str());
            if starts_with(hash.as_str(), "sha256-") {
                return Some(hash);
            }
        }
        i += 1;
    }
    None
}

/// The flake with one hash replaced by the fake one.
pub fn probe_content(current: &str, old_hash: &str) -> (r: String)
    requires
        old_hash@.len() > 0,
    ensures
        r@ == replaced(current@, old_hash@, FAKE_HASH@),
{
    replace(current, old_hash, FAKE_HASH)
}

/// What a try of one hash came to.
#[derive(Debug, Clone)]
pub enum ProbeOutcome {
    /// Nix reported the hash that was there.
    UpToDate,
    /// Nix reported this other hash.
    Changed(String),
    /// Nix reported none: the source is cached, and the hash was right.
    NoMismatch,
}

/// The flake to write after one hash was tried, and what the try came to: the flake as it was,
/// unless Nix reported another hash, which then stands in place of the old one everywhere.
pub fn after_probe(current: &str, old_hash: &str, stderr: &str) -> (r: (String, ProbeOutcome))
    requires
        old_hash@.len() > 0,
    ensures
        match reported(lines(stderr@)) {
            None => r.0@ == current@ && r.1 is NoMismatch,
            Some(h) => if h == old_hash@ {
                r.0@ == current@ && r.1 is UpToDate
            } else {
                r.0@ == replaced(current@, old_hash@, h) && (r.1 matches ProbeOutcome::Changed(n)
                    && n@ == h)
            },
        },
{
    match extract_hash(stderr) {
        None => (current.to_owned(), ProbeOutcome::NoMismatch),
        Some(h) => {
            if same(h.as_str(), old_hash) {
                (current.to_owned(), ProbeOutcome::UpToDate)
            } else {
                (replace(current, old_hash, h.as_str()), ProbeOutcome::Changed(h))
            }
        },
    }
}

/// Every entry's hash begins as a hash does, so that it is not empty and can be replaced.
pub proof fn law_entries_are_hashes(t: Seq<char>)
    ensures
        entry_of(t) matches Some((_, hash)) ==> has_prefix(hash, "sha256-"@) && hash.len() > 0,
{
    let m = ENTRY_MIDDLE@;
    reveal_strlit("\" = \"sha256-");
    reveal_strlit("sha256-");
    crate::text::lemma_find_from(t, m, 0);
    if let Some(i) = find(t, m) {
        let rest = t.skip(i + 5);
        crate::text::lemma_index_of_range(rest, '"');
        let end = index_of(rest, '"');
        assert(t.subrange(i, i + m.len()) == m);
        assert forall|k: int| 0 <= k < 7 implies rest[k] == "sha256-"@[k] by {
            assert(rest[k] == t.subrange(i, i + m.len())[k + 5]);
            assert(m[k + 5] == "sha256-"@[k]);
        }
        if end < rest.len() {
            assert(rest[end] == '"');
            assert(end >= 7);
            assert(rest.take(end).take(7) =~= "sha256-"@);
        }
    }
}

/// Each hash of the entries is tried, and none twice.
pub proof fn law_each_hash_once(entries: Seq<(Seq<char>, Seq<char>)>)
    ensures
        forall|i: int, j: int|
            0 <= i < j < distinct(entries).len() ==> (#[trigger] distinct(entries)[i]).1 != (
            #[trigger] distinct(entries)[j]).1,
        forall|k: int|
            0 <= k < entries.len() ==> has_hash(distinct(entries), (#[trigger] entries[k]).1),
    decreases entries.len(),
{
    if entries.len() > 0 {
        let rest = entries.drop_last();
        law_each_hash_once(rest);
        let before = distinct(rest);
        let all = distinct(entries);
        assert forall|k: int| 0 <= k < entries.len() implies has_hash(
            all,
            (#[trigger] entries[k]).1,
        ) by {
            let h = entries[k].1;
            if k < rest.len() {
                assert(rest[k] == entries[k]);
                let i = choose|i: int| 0 <= i < before.len() && (#[trigger] before[i]).1 == h;
                assert(all[i].1 == h);
            } else if !has_hash(before, h) {
                assert(all[before.len() as int].1 == h);
            }
        }
        assert forall|i: int, j: int| 0 <= i < j < all.len() implies (#[trigger] all[i]).1 != (
        #[trigger] all[j]).1 by {
            assert(all[i] == before[i]);
            if j < before.len() {
                assert(all[j] == before[j]);
            }
        }
    }
}

/// What to build is the first argument after the program's name that is no option; without one it
/// is the default.
pub proof fn law_target(args: Seq<Seq<char>>, i: int)
    requires
        1 <= i <= args.len(),
        forall|k: int| 1 <= k < i ==> (#[trigger] args[k]).len() > 0 && args[k][0] == '-',
        i < args.len() ==> args[i].len() == 0 || args[i][0] != '-',
    ensures
        target_in(args, 1) == (if i < args.len() {
            args[i]
        } else {
            ".#default"@
        }),
{
    lemma_target(args, 1, i);
}

proof fn lemma_target(args: Seq<Seq<char>>, from: int, i: int)
    requires
        1 <= from <= i <= args.len(),
        forall|k: int| 1 <= k < i ==> (#[trigger] args[k]).len() > 0 && args[k][0] == '-',
        i < args.len() ==> args[i].len() == 0 || args[i][0] != '-',
    ensures
        target_in(args, from) == (if i < args.len() {
            args[i]
        } else {
            ".#default"@
        }),
    decreases i - from,
{
    reveal_strlit("-");
    if from < i {
        assert(args[from].len() > 0 && args[from][0] == '-');
        assert(args[from].take(1) =~= "-"@);
        lemma_target(args, from + 1, i);
    } else if i < args.len() && has_prefix(args[i], "-"@) {
        assert(args[i].take(1)[0] == args[i][0]);
    }
}

/// A line that gives a key and a hash, both in quotes, is an entry of that key and that hash.
pub proof fn law_entry(key: Seq<char>, digits: Seq<char>, rest: Seq<char>)
    requires
        !key.contains('"'),
        !digits.contains('"'),
    ensures
        entry_of(
            seq!['"'] + key + "\" = \"sha256-"@ + digits + seq!['"'] + rest,
        ) == Some((key, "sha256-"@ + digits)),
{
    let m = ENTRY_MIDDLE@;
    reveal_strlit("\" = \"sha256-");
    reveal_strlit("sha256-");
    let t = seq!['"'] + key + m + digits + seq!['"'] + rest;
    let n: int = key.len() + 1int;
    assert(t.subrange(n, n + m.len()) =~= m);
    crate::text::lemma_find_from(t, m, 0);
    let i = find(t, m)->0;
    assert(find(t, m) is Some);
    assert(i == n) by {
        assert(t.subrange(i, i + m.len()) == m);
        assert(t.subrange(i, i + m.len())[0] == t[i]);
        if i == 0 {
            assert(t.subrange(i, i + m.len())[1] == t[1]);
            assert(t.subrange(i, i + m.len())[4] == t[4]);
            assert(m[1] == ' ' && m[4] == '"' && m[3] == ' ' && m[2] == '=');
            assert(t.subrange(i, i + m.len())[2] == t[2]);
            assert(t.subrange(i, i + m.len())[3] == t[3]);
            if key.len() == 0 {
                assert(t[1] == m[0]);
            } else if key.len() == 1 {
                assert(t[2] == m[0]);
            } else if key.len() == 2 {
                assert(t[3] == m[0]);
            } else if key.len() == 3 {
                assert(t.subrange(i, i + m.len())[5] == t[5]);
                assert(t[5] == m[1] && m[5] == 's');
            } else {
                assert(t[4] == key[3]);
            }
        } else if i < n {
            assert(t[i] == key[i - 1]);
        }
    }
    let tail = t.skip(i + 5);
    let hash = "sha256-"@ + digits;
    assert(tail =~= hash + seq!['"'] + rest);
    crate::text::lemma_index_of_range(tail, '"');
    let end = index_of(tail, '"');
    assert(tail[hash.len() as int] == '"');
    assert(end == hash.len()) by {
        if end < hash.len() {
            if end >= 7 {
                assert(tail[end] == digits[end - 7]);
            } else {
                assert(tail[end] == "sha256-"@[end]);
            }
        }
    }
    assert(tail.take(end) =~= hash);
    assert(t.subrange(1, i) =~= key);
}

/// The entries of a flake are those of its lines, in their order: none is left out.
pub proof fn law_entries_from_lines(rows: Seq<Seq<char>>)
    ensures
        picks(rows, |row: Seq<char>| entry_of(trimmed(row)), entries_in(rows)),
    decreases rows.len(),
{
    let f = |row: Seq<char>| entry_of(trimmed(row));
    if rows.len() == 0 {
        lemma_picks_none(rows, f, entries_in(rows));
    } else {
        law_entries_from_lines(rows.drop_last());
        lemma_picks_next(rows, f, entries_in(rows.drop_last()), entries_in(rows));
    }
}

/// Each entry that is tried is one of the flake's, and the first one with its hash.
pub proof fn law_tried_entries(entries: Seq<(Seq<char>, Seq<char>)>, i: int)
    requires
        0 <= i < distinct(entries).len(),
    ensures
        exists|k: int|
            0 <= k < entries.len() && #[trigger] entries[k] == distinct(entries)[i] && forall|j: int|
                0 <= j < k ==> (#[trigger] entries[j]).1 != entries[k].1,
    decreases entries.len(),
{
    let front = entries.drop_last();
    let before = distinct(front);
    if i < before.len() {
        law_tried_entries(front, i);
        let k = choose|k: int|
            0 <= k < front.len() && #[trigger] front[k] == before[i] && forall|j: int|
                0 <= j < k ==> (#[trigger] front[j]).1 != front[k].1;
        assert(entries[k] == front[k]);
        assert forall|j: int| 0 <= j < k implies (#[trigger] entries[j]).1 != entries[k].1 by {
            assert(front[j] == entries[j]);
        }
    } else {
        let k = entries.len() - 1;
        law_each_hash_once(front);
        assert forall|j: int| 0 <= j < k implies (#[trigger] entries[j]).1 != entries[k].1 by {
            assert(front[j] == entries[j]);
            assert(has_hash(before, front[j].1));
        }
        assert(entries[k] == distinct(entries)[i]);
    }
}

/// Nix reports the hash after `got:` in the first line that begins so and gives one.
pub proof fn law_reported(rows: Seq<Seq<char>>, hash: Seq<char>, blanks: Seq<char>, i: int)
    requires
        0 <= i < rows.len(),
        forall|k: int|
            0 <= k < i ==> !has_prefix(trimmed(#[trigger] rows[k]), "got:"@),
        trimmed(rows[i]) == "got:"@ + blanks + hash,
        forall|k: int| 0 <= k < blanks.len() ==> crate::text::is_white(#[trigger] blanks[k]),
        has_prefix(hash, "sha256-"@),
        !crate::text::is_white(hash.last()),
    ensures
        reported(rows) == Some(hash),
    decreases i,
{
    if i > 0 {
        let rest = rows.drop_first();
        assert(!has_prefix(trimmed(rows[0]), "got:"@));
        assert forall|k: int| 0 <= k < i - 1 implies !has_prefix(
            trimmed(#[trigger] rest[k]),
            "got:"@,
        ) by {
            assert(rest[k] == rows[k + 1]);
        }
        law_reported(rest, hash, blanks, i - 1);
    } else {
        reveal_strlit("got:");
        reveal_strlit("sha256-");
        let t = trimmed(rows[0]);
        let s = t.skip("got:"@.len() as int);
        assert(t.take(4) =~= "got:"@);
        assert(s =~= blanks + hash);
        assert(hash.take(7)[0] == hash[0]);
        assert forall|k: int| 0 <= k < blanks.len() implies crate::text::is_white(#[trigger] s[k]) by {
            assert(s[k] == blanks[k]);
        }
        assert(s[blanks.len() as int] == hash[0]);
        assert(s[s.len() - 1] == hash.last());
        crate::text::law_trimmed(s, blanks.len() as int, s.len() as int);
        assert(s.subrange(blanks.len() as int, s.len() as int) =~= hash);
    }
}

/// Nix reports nothing if no line begins with `got:`.
pub proof fn law_nothing_reported(rows: Seq<Seq<char>>)
    requires
        forall|k: int| 0 <= k < rows.len() ==> !has_prefix(trimmed(#[trigger] rows[k]), "got:"@),
    ensures
        reported(rows) is None,
    decreases rows.len(),
{
    if rows.len() > 0 {
        let rest = rows.drop_first();
        assert(!has_prefix(trimmed(rows[0]), "got:"@));
        assert forall|k: int| 0 <= k < rest.len() implies !has_prefix(
            trimmed(#[trigger] rest[k]),
            "got:"@,
        ) by {
            assert(rest[k] == rows[k + 1]);
        }
        law_nothing_reported(rest);
    }
}

/// A key lacks its opening quote exactly if its line begins with what stands between key and hash.
pub proof fn law_quoted_keys(rows: Seq<Seq<char>>)
    ensures
        keys_are_quoted(rows) <==> forall|i: int|
            0 <= i < rows.len() ==> !has_prefix(trimmed(#[trigger] rows[i]), "\" = \"sha256-"@),
{
    let m = ENTRY_MIDDLE@;
    assert forall|i: int| 0 <= i < rows.len() implies (find(trimmed(#[trigger] rows[i]), m) == Some(
        0int,
    )) == has_prefix(trimmed(rows[i]), m) by {
        let t = trimmed(rows[i]);
        crate::text::lemma_find_from(t, m, 0);
        if m.len() <= t.len() {
            assert(t.subrange(0, m.len() as int) =~= t.take(m.len() as int));
        }
    }
}

} // verus!

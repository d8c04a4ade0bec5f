//! Versions of releases, and their order.
use crate::text::{
    all_digits, before, decimal, index_of, is_digit, is_white, lemma_before_irreflexive,
    lemma_before_total, lemma_before_transitive, lemma_decimal_digits, lemma_decimal_parses,
    lemma_split_none, law_split, law_trimmed, number, parse_u64, parsed, split, split_at_char,
    split_once, strip_front, trim, trim_back, trim_front, trim_start_matches, trimmed, views,
};
use vstd::prelude::*;

verus! {

/// A version without build metadata. `pre` is empty for a full release.
#[derive(Debug, Clone, PartialEq, Eq)]
pub struct Version {
    pub major: u64,
    pub minor: u64,
    pub patch: u64,
    pub pre: String,
}

/// The content of a version.
pub struct VersionView {
    pub major: u64,
    pub minor: u64,
    pub patch: u64,
    pub pre: Seq<char>,
}

impl View for Version {
    type V = VersionView;

    open spec fn view(&self) -> VersionView {
        VersionView { major: self.major, minor: self.minor, patch: self.patch, pre: self.pre@ }
    }
}

/// A letter or digit of ASCII, or a hyphen.
pub open spec fn is_identifier_char(c: char) -> bool {
    'a' <= c <= 'z' || 'A' <= c <= 'Z' || '0' <= c <= '9' || c == '-'
}

/// One identifier of a pre-release: not empty, of letters, digits and hyphens, and without leading
/// zeros where it is a number.
pub open spec fn is_identifier(s: Seq<char>) -> bool {
    &&& s.len() > 0
    &&& forall|i: int| 0 <= i < s.len() ==> is_identifier_char(#[trigger] s[i])
    &&& all_digits(s) && s.len() > 1 ==> s[0] != '0'
}

/// A pre-release: empty, or identifiers with dots between them.
pub open spec fn is_prerelease(s: Seq<char>) -> bool {
    s.len() == 0 || forall|i: int|
        0 <= i < split(s, '.').len() ==> is_identifier(#[trigger] split(s, '.')[i])
}

/// More characters than can be stored of a pre-release.
pub const PRERELEASE_LIMIT: u64 = 0x100_0000_0000_0000;

/// The order of identifiers: numbers by value and before all others, the others as texts.
pub open spec fn identifier_before(a: Seq<char>, b: Seq<char>) -> bool {
    if all_digits(a) && all_digits(b) {
        number(a) < number(b)
    } else if all_digits(a) || all_digits(b) {
        all_digits(a)
    } else {
        before(a, b)
    }
}

/// The order of rows of identifiers: the first difference decides, and a row comes after its
/// beginnings.
pub open spec fn identifiers_before(a: Seq<Seq<char>>, b: Seq<Seq<char>>) -> bool
    decreases a.len(),
{
    if b.len() == 0 {
        false
    } else if a.len() == 0 {
        true
    } else if a[0] != b[0] {
        identifier_before(a[0], b[0])
    } else {
        identifiers_before(a.drop_first(), b.drop_first())
    }
}

/// The order of pre-releases of one version: all come before the full release.
pub open spec fn prerelease_before(a: Seq<char>, b: Seq<char>) -> bool {
    if a.len() == 0 {
        false
    } else if b.len() == 0 {
        true
    } else {
        identifiers_before(split(a, '.'), split(b, '.'))
    }
}

/// The order of versions.
pub open spec fn version_before(a: VersionView, b: VersionView) -> bool {
    if a.major != b.major {
        a.major < b.major
    } else if a.minor != b.minor {
        a.minor < b.minor
    } else if a.patch != b.patch {
        a.patch < b.patch
    } else {
        prerelease_before(a.pre, b.pre)
    }
}

/// Calls `semver::Prerelease::new`. It accepts exactly the empty text and dot-separated
/// identifiers as `is_prerelease` states them. A text over the limit could not be stored.
#[verifier::external_body]
fn prerelease_accepted(text: &str) -> (r: bool)
    requires
        text@.len() < PRERELEASE_LIMIT,
    ensures
        r == is_prerelease(text@),
{
    semver::Prerelease::new(text).is_ok()
}

/// Compares two `semver::Version` values without build metadata with `<`: the numbers decide from
/// left to right, then the pre-releases, a pre-release coming before the full release, and two
/// pre-releases by their dot-separated identifiers.
#[verifier::external_body]
fn is_before(a: &Version, b: &Version) -> (r: bool)
    requires
        is_prerelease(a.pre@) && a.pre@.len() < PRERELEASE_LIMIT,
        is_prerelease(b.pre@) && b.pre@.len() < PRERELEASE_LIMIT,
    ensures
        r == version_before(a@, b@),
{
    let of = |v: &Version| semver::Version {
        major: v.major,
        minor: v.minor,
        patch: v.patch,
        pre: semver::Prerelease::new(&v.pre).unwrap_or_default(),
        build: semver::BuildMetadata::EMPTY,
    };
    of(a) < of(b)
}

/// The number at a place of a version: 0 where nothing is written, none where what is written is
/// no number.
pub open spec fn number_at(nums: Seq<Seq<char>>, i: int) -> Option<u64> {
    if i < nums.len() {
        match parsed(nums[i], u64::MAX as nat) {
            Some(n) => Some(n as u64),
            None => None,
        }
    } else {
        Some(0)
    }
}

/// The version that a core and a pre-release stand for. The first number has to be there; the
/// others count as 0 where they are missing.
pub open spec fn version_of(core: Seq<char>, pre: Seq<char>) -> Option<VersionView> {
    let nums = split(core, '.');
    if core.len() == 0 || !is_prerelease(pre) || pre.len() >= PRERELEASE_LIMIT {
        None
    } else {
        match (number_at(nums, 0), number_at(nums, 1), number_at(nums, 2)) {
            (Some(major), Some(minor), Some(patch)) => Some(
                VersionView { major, minor, patch, pre },
            ),
            _ => None,
        }
    }
}

/// A tag without surrounding whitespace, leading `v`s and build metadata.
pub open spec fn without_metadata(raw: Seq<char>) -> Seq<char> {
    let s = strip_front(trimmed(raw), 'v');
    trimmed(s.take(index_of(s, '+')))
}

/// The version that a tag stands for: numbers separated by dots, and what follows the first hyphen
/// as the pre-release.
pub open spec fn parsed_version(raw: Seq<char>) -> Option<VersionView> {
    let s = without_metadata(raw);
    let i = index_of(s, '-');
    if i < s.len() {
        version_of(trimmed(s.take(i)), trimmed(s.skip(i + 1)))
    } else {
        version_of(s, Seq::empty())
    }
}

fn number_or_zero(nums: &Vec<String>, i: usize) -> (r: Option<u64>)
    ensures
        r == number_at(views(nums@), i as int),
{
    if i < nums.len() {
        assert(views(nums@)[i as int] == nums@[i as int]@);
        parse_u64(nums[i].as_str())
    } else {
        Some(0)
    }
}

fn version_from(core: &str, pre: String) -> (r: Option<Version>)
    ensures
        r is Some <==> version_of(core@, pre@) is Some,
        r matches Some(v) ==> version_of(core@, pre@) == Some(v@),
{
    if core.is_empty() {
        return None;
    }
    let nums = split_at_char(core, '.');
    let numbers = (
        number_or_zero(&nums, 0),
        number_or_zero(&nums, 1),
        number_or_zero(&nums, 2),
    );
    if pre.as_str().unicode_len() as u64 >= PRERELEASE_LIMIT {
        return None;
    }
    if !prerelease_accepted(pre.as_str()) {
        return None;
    }
    match numbers {
        (Some(major), Some(minor), Some(patch)) => Some(Version { major, minor, patch, pre }),
        _ => None,
    }
}

/// The version that a tag or a package version stands for. A leading `v`, a missing minor or patch
/// number and a pre-release are accepted; build metadata is dropped. A number that is written but is
/// none, or a pre-release with invalid identifiers, makes it no version.
pub fn parse_update_version(raw: &str) -> (r: Option<Version>)
    ensures
        r is Some <==> parsed_version(raw@) is Some,
        r matches Some(v) ==> parsed_version(raw@) == Some(v@),
{
    let t = trim(raw);
    let s = trim_start_matches(t.as_str(), 'v');
    let s = match split_once(s.as_str(), '+') {
        Some((front, _)) => trim(front.as_str()),
        None => {
            proof {
                crate::text::lemma_index_of_range(s@, '+');
                assert(s@.take(index_of(s@, '+')) =~= s@);
            }
            trim(s.as_str())
        },
    };
    match split_once(s.as_str(), '-') {
        Some((core, pre)) => {
            let core = trim(core.as_str());
            version_from(core.as_str(), trim(pre.as_str()))
        },
        None => {
            let none = String::new();
            assert(none@ =~= Seq::<char>::empty());
            version_from(s.as_str(), none)
        },
    }
}

/// Both texts stand for versions, and the first is after the second.
pub open spec fn newer(a: Seq<char>, b: Seq<char>) -> bool {
    match (parsed_version(a), parsed_version(b)) {
        (Some(v), Some(w)) => version_before(w, v),
        _ => false,
    }
}

/// Whether the first version is strictly newer than the second. A text that is no version is not
/// newer than any and none is newer than it.
pub fn is_newer(version1: &str, version2: &str) -> (r: bool)
    ensures
        r == newer(version1@, version2@),
{
    proof {
        lemma_parsed_is_prerelease(version1@);
        lemma_parsed_is_prerelease(version2@);
    }
    match (parse_update_version(version1), parse_update_version(version2)) {
        (Some(v1), Some(v2)) => is_before(&v2, &v1),
        _ => false,
    }
}

proof fn lemma_parsed_is_prerelease(raw: Seq<char>)
    ensures
        parsed_version(raw) matches Some(v) ==> is_prerelease(v.pre) && v.pre.len()
            < PRERELEASE_LIMIT,
{
}

proof fn lemma_identifiers_irreflexive(a: Seq<Seq<char>>)
    ensures
        !identifiers_before(a, a),
    decreases a.len(),
{
    if a.len() > 0 {
        lemma_identifiers_irreflexive(a.drop_first());
    }
}

proof fn lemma_identifier_transitive(a: Seq<char>, b: Seq<char>, c: Seq<char>)
    requires
        identifier_before(a, b),
        identifier_before(b, c),
    ensures
        identifier_before(a, c),
        a != c,
{
    if !all_digits(a) && !all_digits(b) && !all_digits(c) {
        lemma_before_transitive(a, b, c);
        lemma_before_irreflexive(a);
    }
}

proof fn lemma_identifiers_transitive(a: Seq<Seq<char>>, b: Seq<Seq<char>>, c: Seq<Seq<char>>)
    requires
        identifiers_before(a, b),
        identifiers_before(b, c),
    ensures
        identifiers_before(a, c),
    decreases a.len(),
{
    if a.len() > 0 {
        if a[0] == b[0] && b[0] == c[0] {
            lemma_identifiers_transitive(a.drop_first(), b.drop_first(), c.drop_first());
        } else if a[0] != b[0] && b[0] != c[0] {
            lemma_identifier_transitive(a[0], b[0], c[0]);
        }
    }
}

/// No version is newer than itself.
pub proof fn law_newer_irreflexive(a: Seq<char>)
    ensures
        !newer(a, a),
{
    if let Some(v) = parsed_version(a) {
        lemma_identifiers_irreflexive(split(v.pre, '.'));
    }
}

/// What is newer than a newer version is newer.
pub proof fn law_newer_transitive(a: Seq<char>, b: Seq<char>, c: Seq<char>)
    requires
        newer(a, b),
        newer(b, c),
    ensures
        newer(a, c),
{
    let (x, y, z) = (parsed_version(a)->0, parsed_version(b)->0, parsed_version(c)->0);
    if z.pre.len() > 0 && y.pre.len() > 0 && x.pre.len() > 0 && x.major == y.major && y.major
        == z.major && x.minor == y.minor && y.minor == z.minor && x.patch == y.patch && y.patch
        == z.patch {
        lemma_identifiers_transitive(split(z.pre, '.'), split(y.pre, '.'), split(x.pre, '.'));
    }
}

/// Two versions are never newer than each other.
pub proof fn law_newer_asymmetric(a: Seq<char>, b: Seq<char>)
    requires
        newer(a, b),
    ensures
        !newer(b, a),
{
    if newer(b, a) {
        law_newer_transitive(a, b, a);
        law_newer_irreflexive(a);
    }
}

/// A full release is newer than each pre-release with the same numbers.
pub proof fn law_release_after_prerelease(a: Seq<char>, b: Seq<char>)
    requires
        parsed_version(a) is Some,
        parsed_version(b) is Some,
        parsed_version(a)->0.major == parsed_version(b)->0.major,
        parsed_version(a)->0.minor == parsed_version(b)->0.minor,
        parsed_version(a)->0.patch == parsed_version(b)->0.patch,
        parsed_version(a)->0.pre.len() == 0,
        parsed_version(b)->0.pre.len() > 0,
    ensures
        newer(a, b),
        !newer(b, a),
{
}

proof fn lemma_number_positive(s: Seq<char>)
    requires
        s.len() > 0,
        all_digits(s),
        s[0] != '0',
    ensures
        number(s) > 0,
    decreases s.len(),
{
    assert(is_digit(s[0]));
    if s.len() > 1 {
        let t = s.drop_last();
        assert forall|i: int| 0 <= i < t.len() implies is_digit(#[trigger] t[i]) by {
            assert(is_digit(s[i]));
        }
        assert(is_digit(s[s.len() - 1]));
        lemma_number_positive(t);
    }
}

/// Numbers without leading zeros are equal only if they are written alike.
proof fn lemma_number_injective(a: Seq<char>, b: Seq<char>)
    requires
        is_identifier(a),
        is_identifier(b),
        all_digits(a),
        all_digits(b),
        number(a) == number(b),
    ensures
        a == b,
    decreases a.len(),
{
    let p = a.drop_last();
    let q = b.drop_last();
    assert(is_digit(a[a.len() - 1]) && is_digit(b[b.len() - 1]));
    assert forall|i: int| 0 <= i < p.len() implies is_digit(#[trigger] p[i]) && is_identifier_char(
        p[i],
    ) by {
        assert(is_digit(a[i]));
    }
    assert forall|i: int| 0 <= i < q.len() implies is_digit(#[trigger] q[i]) && is_identifier_char(
        q[i],
    ) by {
        assert(is_digit(b[i]));
    }
    assert(a =~= p.push(a.last()));
    assert(b =~= q.push(b.last()));
    assert(number(p) == number(q) && a.last() == b.last());
    if a.len() > 1 && b.len() > 1 {
        lemma_number_injective(p, q);
    } else if a.len() > 1 {
        lemma_number_positive(p);
        assert(q =~= Seq::<char>::empty());
    } else if b.len() > 1 {
        lemma_number_positive(q);
        assert(p =~= Seq::<char>::empty());
    } else {
        assert(p =~= q);
    }
}

proof fn lemma_identifiers_total(a: Seq<Seq<char>>, b: Seq<Seq<char>>)
    requires
        forall|i: int| 0 <= i < a.len() ==> is_identifier(#[trigger] a[i]),
        forall|i: int| 0 <= i < b.len() ==> is_identifier(#[trigger] b[i]),
    ensures
        a == b || identifiers_before(a, b) || identifiers_before(b, a),
    decreases a.len(),
{
    if a.len() == 0 && b.len() == 0 {
        assert(a =~= b);
    } else if a.len() > 0 && b.len() > 0 {
        if a[0] == b[0] {
            lemma_identifiers_total(a.drop_first(), b.drop_first());
            if a.drop_first() == b.drop_first() {
                assert(a =~= seq![a[0]] + a.drop_first());
                assert(b =~= seq![b[0]] + b.drop_first());
            }
        } else {
            lemma_before_total(a[0], b[0]);
            if all_digits(a[0]) && all_digits(b[0]) && number(a[0]) == number(b[0]) {
                lemma_number_injective(a[0], b[0]);
            }
        }
    }
}

/// Of two texts that stand for versions, one is newer than the other unless they stand for the
/// same version.
pub proof fn law_newer_total(a: Seq<char>, b: Seq<char>)
    requires
        parsed_version(a) is Some,
        parsed_version(b) is Some,
    ensures
        parsed_version(a) == parsed_version(b) || newer(a, b) || newer(b, a),
{
    let x = parsed_version(a)->0;
    let y = parsed_version(b)->0;
    lemma_parsed_is_prerelease(a);
    lemma_parsed_is_prerelease(b);
    if x.pre.len() > 0 && y.pre.len() > 0 {
        lemma_identifiers_total(split(x.pre, '.'), split(y.pre, '.'));
        crate::text::lemma_split_join(x.pre, '.');
        crate::text::lemma_split_join(y.pre, '.');
    } else if x.pre.len() == 0 && y.pre.len() == 0 {
        assert(x.pre =~= y.pre);
    }
}

/// What follows the first `+` of a tag has no influence on its version.
pub proof fn law_metadata_ignored(core: Seq<char>, build: Seq<char>)
    requires
        !core.contains('+'),
    ensures
        parsed_version(core + seq!['+'] + build) == parsed_version(core),
{
    let t = seq!['+'] + build;
    let whole = core + seq!['+'] + build;
    assert(whole =~= core + t);
    assert(!is_white(t[0]));
    let x = trim_front(core);
    let u = trim_back(t);
    lemma_trim_front_keeps(core, t);
    lemma_trim_back_keeps(x, t);
    crate::text::lemma_trim_back(t);
    assert(trimmed(whole) == x + u);
    assert(u.len() > 0 && u[0] == '+') by {
        if u.len() == 0 {
            assert(is_white(t[0]));
        }
    }
    lemma_strip_front_keeps(x, u);
    let y = strip_front(x, 'v');
    crate::text::lemma_trimmed_len(core);
    lemma_strip_front_sub(x);
    assert(!y.contains('+')) by {
        if y.contains('+') {
            let k = choose|k: int| 0 <= k < y.len() && y[k] == '+';
            assert(y[k] == x[x.len() - y.len() + k]);
            assert(core[core.len() - y.len() + k] == '+');
        }
    }
    let b = y + u;
    crate::text::lemma_index_of_range(b, '+');
    let i = index_of(b, '+');
    assert(b[y.len() as int] == '+');
    if i < y.len() {
        assert(y[i] == '+');
    }
    assert(b.take(i) =~= y);
    assert(without_metadata(whole) == trimmed(y));
    lemma_strip_commutes(x);
    let z = trim_back(y);
    crate::text::lemma_trim_back(y);
    assert(!z.contains('+')) by {
        if z.contains('+') {
            let k = choose|k: int| 0 <= k < z.len() && z[k] == '+';
            assert(y[k] == '+');
        }
    }
    crate::text::lemma_index_of_range(z, '+');
    assert(z.take(index_of(z, '+')) =~= z);
    assert(without_metadata(core) == trimmed(z));
    lemma_trim_again(y);
}

proof fn lemma_plain(s: Seq<char>)
    requires
        s.len() > 0,
        '0' <= s[0] <= '9',
        forall|i: int| 0 <= i < s.len() ==> '!' <= #[trigger] s[i] <= '~',
        !s.contains('+'),
    ensures
        trimmed(s) == s,
        without_metadata(s) == s,
        without_metadata(seq!['v'] + s) == s,
{
    law_trimmed(s, 0, s.len() as int);
    assert(s.subrange(0, s.len() as int) =~= s);
    let w = seq!['v'] + s;
    assert forall|i: int| 0 <= i < w.len() implies !is_white(#[trigger] w[i]) by {
        if i > 0 {
            assert(w[i] == s[i - 1]);
        }
    }
    law_trimmed(w, 0, w.len() as int);
    assert(w.subrange(0, w.len() as int) =~= w);
    assert(strip_front(s, 'v') == s);
    assert(w.drop_first() =~= s);
    assert(strip_front(w, 'v') == s);
    crate::text::lemma_index_of_range(s, '+');
    assert(s.take(index_of(s, '+')) =~= s);
}

proof fn lemma_digits_plain(s: Seq<char>)
    requires
        all_digits(s),
    ensures
        forall|i: int| 0 <= i < s.len() ==> '0' <= #[trigger] s[i] <= '9',
        !s.contains('.') && !s.contains('-') && !s.contains('+'),
{
    assert forall|i: int| 0 <= i < s.len() implies '0' <= #[trigger] s[i] <= '9' by {
        assert(is_digit(s[i]));
    }
}

/// Three numbers with dots between them.
pub open spec fn three_numbers(a: u64, b: u64, c: u64) -> Seq<char> {
    decimal(a as nat) + seq!['.'] + (decimal(b as nat) + seq!['.'] + decimal(c as nat))
}

/// What is written as three numbers is the version with these numbers, with and without a leading
/// `v`; what follows a hyphen is its pre-release.
pub proof fn law_written_version(a: u64, b: u64, c: u64, pre: Seq<char>)
    requires
        is_prerelease(pre),
        pre.len() < PRERELEASE_LIMIT,
    ensures
        ({
            let full = VersionView { major: a, minor: b, patch: c, pre: Seq::empty() };
            let s = three_numbers(a, b, c);
            let p = s + seq!['-'] + pre;
            &&& parsed_version(s) == Some(full)
            &&& parsed_version(seq!['v'] + s) == Some(full)
            &&& pre.len() > 0 ==> parsed_version(p) == Some(VersionView { pre, ..full })
            &&& pre.len() > 0 ==> parsed_version(seq!['v'] + p) == Some(
                VersionView { pre, ..full },
            )
        }),
{
    let (x, y, z) = (decimal(a as nat), decimal(b as nat), decimal(c as nat));
    let s = three_numbers(a, b, c);
    let p = s + seq!['-'] + pre;
    lemma_decimal_digits(a as nat);
    lemma_decimal_digits(b as nat);
    lemma_decimal_digits(c as nat);
    lemma_digits_plain(x);
    lemma_digits_plain(y);
    lemma_digits_plain(z);
    lemma_decimal_parses(a as nat, u64::MAX as nat);
    lemma_decimal_parses(b as nat, u64::MAX as nat);
    lemma_decimal_parses(c as nat, u64::MAX as nat);
    let tail = y + seq!['.'] + z;
    law_split(x, '.', tail);
    law_split(y, '.', z);
    lemma_split_none(z, '.');
    assert(split(s, '.') =~= seq![x, y, z]);
    assert(s[0] == x[0]);
    assert forall|i: int| 0 <= i < s.len() implies ('0' <= #[trigger] s[i] <= '9' || s[i] == '.') by {
        if i < x.len() {
            assert(s[i] == x[i]);
        } else if i == x.len() {
        } else {
            let k = i - x.len() - 1;
            assert(s[i] == tail[k]);
            if k < y.len() {
                assert(tail[k] == y[k]);
            } else if k > y.len() {
                assert(tail[k] == z[k - y.len() - 1]);
            }
        }
    }
    assert(!s.contains('+') && !s.contains('-'));
    lemma_plain(s);
    crate::text::lemma_index_of_range(s, '-');
    assert(is_prerelease(Seq::<char>::empty()));
    assert(version_of(s, Seq::empty()) == Some(
        VersionView { major: a, minor: b, patch: c, pre: Seq::empty() },
    ));
    if pre.len() > 0 {
        lemma_prerelease_plain(pre);
        assert(p[0] == s[0]);
        assert forall|i: int| 0 <= i < p.len() implies '!' <= #[trigger] p[i] <= '~' && p[i]
            != '+' by {
            if i < s.len() {
                assert(p[i] == s[i]);
            } else if i > s.len() {
                assert(p[i] == pre[i - s.len() - 1]);
            }
        }
        lemma_plain(p);
        crate::text::lemma_index_of_range(p, '-');
        let i = index_of(p, '-');
        assert(p[s.len() as int] == '-');
        assert(i == s.len()) by {
            if i < s.len() {
                assert(s[i] == '-');
            } else if i > s.len() {
                assert(p[s.len() as int] != '-');
            }
        }
        assert(p.take(i) =~= s);
        assert(p.skip(i + 1) =~= pre);
        law_trimmed(pre, 0, pre.len() as int);
        assert(pre.subrange(0, pre.len() as int) =~= pre);
    }
}

proof fn lemma_prerelease_plain(pre: Seq<char>)
    requires
        is_prerelease(pre),
    ensures
        forall|i: int|
            0 <= i < pre.len() ==> '!' <= #[trigger] pre[i] <= '~' && pre[i] != '+' && !is_white(
                pre[i],
            ),
{
    if pre.len() > 0 {
        let parts = split(pre, '.');
        assert forall|k: int| 0 <= k < parts.len() implies plain(#[trigger] parts[k]) by {
            assert(is_identifier(parts[k]));
            assert forall|i: int| 0 <= i < parts[k].len() implies is_plain_char(
                #[trigger] parts[k][i],
            ) by {
                assert(is_identifier_char(parts[k][i]));
            }
        }
        lemma_join_plain(parts);
        crate::text::lemma_split_join(pre, '.');
        assert forall|i: int| 0 <= i < pre.len() implies '!' <= #[trigger] pre[i] <= '~' && pre[i]
            != '+' && !is_white(pre[i]) by {
            assert(is_plain_char(pre[i]));
        }
    }
}

spec fn is_plain_char(c: char) -> bool {
    is_identifier_char(c) || c == '.'
}

spec fn plain(s: Seq<char>) -> bool {
    forall|i: int| 0 <= i < s.len() ==> is_plain_char(#[trigger] s[i])
}

proof fn lemma_join_plain(parts: Seq<Seq<char>>)
    requires
        forall|k: int| 0 <= k < parts.len() ==> plain(#[trigger] parts[k]),
    ensures
        plain(crate::text::join(parts, seq!['.'])),
    decreases parts.len(),
{
    let all = crate::text::join(parts, seq!['.']);
    if parts.len() > 1 {
        let front = parts.drop_last();
        assert forall|k: int| 0 <= k < front.len() implies plain(#[trigger] front[k]) by {
            assert(plain(parts[k]));
        }
        lemma_join_plain(front);
        let before = crate::text::join(front, seq!['.']);
        assert(plain(parts[parts.len() - 1]));
        assert forall|i: int| 0 <= i < all.len() implies is_plain_char(#[trigger] all[i]) by {
            if i < before.len() {
                assert(all[i] == before[i]);
            } else if i > before.len() {
                assert(all[i] == parts.last()[i - before.len() - 1]);
            }
        }
    } else if parts.len() == 1 {
        assert(plain(parts[0]));
    }
}

/// Full releases are ordered by their numbers: the first number that differs decides, whichever of
/// the two is written with a leading `v`.
pub proof fn law_numbers_decide(a: u64, b: u64, c: u64, d: u64, e: u64, f: u64)
    ensures
        newer(three_numbers(a, b, c), three_numbers(d, e, f)) <==> a > d || a == d && (b > e || b
            == e && c > f),
        newer(seq!['v'] + three_numbers(a, b, c), three_numbers(d, e, f)) <==> a > d || a == d && (b
            > e || b == e && c > f),
{
    law_written_version(a, b, c, Seq::empty());
    law_written_version(d, e, f, Seq::empty());
}

/// A pre-release comes before the release that it prepares and after every release with smaller
/// numbers.
pub proof fn law_prerelease_between(a: u64, b: u64, c: u64, d: u64, e: u64, f: u64, pre: Seq<char>)
    requires
        is_prerelease(pre),
        0 < pre.len() < PRERELEASE_LIMIT,
    ensures
        ({
            let early = three_numbers(a, b, c) + seq!['-'] + pre;
            &&& newer(three_numbers(d, e, f), early) <==> d > a || d == a && (e > b || e == b && f
                >= c)
            &&& newer(early, three_numbers(d, e, f)) <==> a > d || a == d && (b > e || b == e && c
                > f)
        }),
{
    law_written_version(a, b, c, pre);
    law_written_version(d, e, f, Seq::empty());
}

proof fn lemma_trim_front_keeps(s: Seq<char>, t: Seq<char>)
    requires
        t.len() > 0,
        !is_white(t[0]),
    ensures
        trim_front(s + t) == trim_front(s) + t,
    decreases s.len(),
{
    if s.len() == 0 {
        assert(s + t =~= t);
    } else if is_white(s[0]) {
        assert((s + t).drop_first() =~= s.drop_first() + t);
        lemma_trim_front_keeps(s.drop_first(), t);
    }
}

proof fn lemma_trim_back_keeps(s: Seq<char>, t: Seq<char>)
    requires
        t.len() > 0,
        !is_white(t[0]),
    ensures
        trim_back(s + t) == s + trim_back(t),
    decreases t.len(),
{
    assert((s + t).last() == t.last());
    if is_white(t.last()) {
        assert((s + t).drop_last() =~= s + t.drop_last());
        lemma_trim_back_keeps(s, t.drop_last());
    }
}

/// Leading `v`s and trailing whitespace can be taken off in either order.
proof fn lemma_strip_commutes(x: Seq<char>)
    ensures
        strip_front(trim_back(x), 'v') == trim_back(strip_front(x, 'v')),
    decreases x.len(),
{
    if x.len() > 0 && x[0] == 'v' {
        let rest = x.drop_first();
        lemma_strip_commutes(rest);
        lemma_trim_back_first(x);
        assert(trim_back(x).drop_first() =~= trim_back(rest));
    } else if x.len() > 0 {
        crate::text::lemma_trim_back(x);
        if trim_back(x).len() > 0 {
            assert(trim_back(x)[0] == x[0]);
        }
    }
}

proof fn lemma_trim_back_first(x: Seq<char>)
    requires
        x.len() > 0,
        !is_white(x[0]),
    ensures
        trim_back(x) == seq![x[0]] + trim_back(x.drop_first()),
    decreases x.len(),
{
    let rest = x.drop_first();
    if x.len() == 1 {
        assert(trim_back(x) =~= seq![x[0]] + trim_back(rest));
    } else if is_white(x.last()) {
        assert(rest.last() == x.last());
        assert(x.drop_last().drop_first() =~= rest.drop_last());
        lemma_trim_back_first(x.drop_last());
    } else {
        assert(rest.last() == x.last());
        assert(x =~= seq![x[0]] + rest);
    }
}

/// Trailing whitespace does not matter to trimming.
proof fn lemma_trim_again(y: Seq<char>)
    ensures
        trimmed(trim_back(y)) == trimmed(y),
    decreases y.len(),
{
    if y.len() > 0 && is_white(y.last()) {
        lemma_trim_again(y.drop_last());
        lemma_trim_last(y);
    }
}

proof fn lemma_trim_last(y: Seq<char>)
    requires
        y.len() > 0,
        is_white(y.last()),
    ensures
        trimmed(y) == trimmed(y.drop_last()),
    decreases y.len(),
{
    if y.len() == 1 {
        assert(y.drop_first() =~= Seq::<char>::empty());
        assert(y.drop_last() =~= Seq::<char>::empty());
    } else if is_white(y[0]) {
        assert(y.drop_first().drop_last() =~= y.drop_last().drop_first());
        lemma_trim_last(y.drop_first());
    } else {
        assert(trim_front(y) == y);
        assert(trim_front(y.drop_last()) == y.drop_last());
    }
}

proof fn lemma_strip_front_sub(s: Seq<char>)
    ensures
        strip_front(s, 'v').len() <= s.len(),
        strip_front(s, 'v') == s.skip(s.len() - strip_front(s, 'v').len()),
    decreases s.len(),
{
    if s.len() > 0 && s[0] == 'v' {
        lemma_strip_front_sub(s.drop_first());
        assert(strip_front(s, 'v') =~= s.skip(s.len() - strip_front(s, 'v').len()));
    } else {
        assert(s.skip(0) =~= s);
    }
}

proof fn lemma_strip_front_keeps(s: Seq<char>, t: Seq<char>)
    requires
        t.len() > 0,
        t[0] != 'v',
    ensures
        strip_front(s + t, 'v') == strip_front(s, 'v') + t,
    decreases s.len(),
{
    if s.len() > 0 && s[0] == 'v' {
        lemma_strip_front_keeps(s.drop_first(), t);
        assert((s + t).drop_first() =~= s.drop_first() + t);
    } else if s.len() == 0 {
        assert(s + t =~= t);
    }
}

/// Identifiers of pre-releases: numbers come by their value, and before all that is no number; what
/// is no number comes in the order of texts.
pub proof fn law_identifier_order(a: Seq<char>, b: Seq<char>, m: nat, n: nat)
    ensures
        identifier_before(decimal(m), decimal(n)) <==> m < n,
        !all_digits(a) ==> identifier_before(decimal(m), a) && !identifier_before(a, decimal(m)),
        !all_digits(a) && !all_digits(b) ==> identifier_before(a, b) == before(a, b),
{
    crate::text::lemma_decimal_digits(m);
    crate::text::lemma_decimal_digits(n);
    crate::text::lemma_decimal_parses(m, m);
    crate::text::lemma_decimal_parses(n, n);
    assert(is_digit(decimal(m)[0]) && is_digit(decimal(n)[0]));
}

/// Rows of identifiers are ordered by the first place at which they differ; a row that ends there
/// comes first.
pub proof fn law_identifiers_order(same: Seq<Seq<char>>, a: Seq<Seq<char>>, b: Seq<Seq<char>>)
    ensures
        a.len() > 0 && b.len() > 0 && a[0] != b[0] ==> identifiers_before(same + a, same + b)
            == identifier_before(a[0], b[0]),
        a.len() == 0 && b.len() > 0 ==> identifiers_before(same + a, same + b)
            && !identifiers_before(same + b, same + a),
        a.len() == 0 && b.len() == 0 ==> !identifiers_before(same + a, same + b),
    decreases same.len(),
{
    if same.len() == 0 {
        assert(same + a =~= a);
        assert(same + b =~= b);
    } else {
        let rest = same.drop_first();
        law_identifiers_order(rest, a, b);
        assert((same + a).drop_first() =~= rest + a);
        assert((same + b).drop_first() =~= rest + b);
    }
}

/// An identifier is made of letters, digits and hyphens of ASCII, is not empty, and is no number
/// that begins with a zero, but for zero itself.
pub proof fn law_identifier(s: Seq<char>)
    ensures
        is_identifier(s) <==> {
            &&& s.len() > 0
            &&& forall|i: int|
                0 <= i < s.len() ==> 'a' <= #[trigger] s[i] <= 'z' || 'A' <= s[i] <= 'Z' || '0'
                    <= s[i] <= '9' || s[i] == '-'
            &&& s.len() > 1 && s[0] == '0' ==> exists|i: int|
                0 <= i < s.len() && !('0' <= #[trigger] s[i] <= '9')
        },
{
    if is_identifier(s) {
        assert forall|i: int| 0 <= i < s.len() implies 'a' <= #[trigger] s[i] <= 'z' || 'A' <= s[i]
            <= 'Z' || '0' <= s[i] <= '9' || s[i] == '-' by {
            assert(is_identifier_char(s[i]));
        }
        if s.len() > 1 && s[0] == '0' {
            let i = choose|i: int| 0 <= i < s.len() && !is_digit(#[trigger] s[i]);
            assert(!('0' <= s[i] <= '9'));
        }
    }
    if exists|i: int| 0 <= i < s.len() && !('0' <= #[trigger] s[i] <= '9') {
        let i = choose|i: int| 0 <= i < s.len() && !('0' <= #[trigger] s[i] <= '9');
        assert(!is_digit(s[i]));
    }
}

} // verus!

//! Stable versions: three numbers, and nothing else.

use vstd::prelude::*;
use core::cmp::Ordering;
use crate::number::{
    append_number, decimal, digit_value, digits_value, is_digit, law_decimal_reads_back,
    law_read_digits, lemma_decimal, parse_number, read_number,
};
use crate::text::{
    contains_char, joined, law_joined_pieces, law_pieces_rejoin, pieces, split, str_texts, strip_prefix,
};

verus! {

/// The version of a stable release.
#[derive(Clone, Copy, Debug, PartialEq, Eq, Ord, Structural)]
pub struct StableVersion {
    pub major: u64,
    pub minor: u64,
    pub patch: u64,
}

/// A number is written with a zero in front that it does not need.
pub open spec fn has_leading_zero(s: Seq<char>) -> bool {
    s.len() > 1 && s[0] == '0'
}

/// The version that a text denotes: three numbers with dots between them, none of
/// them with a leading zero, and no mark of a prerelease or a build.
pub open spec fn stable_version(s: Seq<char>) -> Option<StableVersion> {
    let parts = pieces(s, '.');
    if s.contains('-') || s.contains('+') || parts.len() != 3 || has_leading_zero(parts[0])
        || has_leading_zero(parts[1]) || has_leading_zero(parts[2]) {
        None
    } else {
        match (
            read_number(parts[0], u64::MAX as nat),
            read_number(parts[1], u64::MAX as nat),
            read_number(parts[2], u64::MAX as nat),
        ) {
            (Ok(major), Ok(minor), Ok(patch)) => Some(
                StableVersion { major: major as u64, minor: minor as u64, patch: patch as u64 },
            ),
            _ => None,
        }
    }
}

/// The version that a release tag denotes: the prefix, and a stable version.
pub open spec fn tag_version(tag: Seq<char>, prefix: Seq<char>) -> Option<StableVersion> {
    if prefix.is_prefix_of(tag) {
        stable_version(tag.skip(prefix.len() as int))
    } else {
        None
    }
}

fn leading_zero(text: &str) -> (res: bool)
    ensures
        res == has_leading_zero(text@),
{
    text.unicode_len() > 1 && text.get_char(0) == '0'
}

impl StableVersion {
    /// The version in the form in which it is read.
    pub open spec fn text(self) -> Seq<char> {
        decimal(self.major as nat) + "."@ + decimal(self.minor as nat) + "."@ + decimal(
            self.patch as nat,
        )
    }

    /// The version is a later one than the other: the first of the three numbers
    /// that differs is larger.
    pub open spec fn is_newer(self, other: StableVersion) -> bool {
        ||| self.major > other.major
        ||| self.major == other.major && self.minor > other.minor
        ||| self.major == other.major && self.minor == other.minor && self.patch > other.patch
    }

    /// Reads a stable version.
    pub fn parse(value: &str) -> (res: Option<StableVersion>)
        ensures
            res == stable_version(value@),
    {
        if contains_char(value, '-') || contains_char(value, '+') {
            return None;
        }
        let parts = split(value, '.');
        assert(parts@.len() == str_texts(parts@).len());
        if parts.len() != 3 {
            return None;
        }
        assert(str_texts(parts@)[0] == parts@[0]@);
        assert(str_texts(parts@)[1] == parts@[1]@);
        assert(str_texts(parts@)[2] == parts@[2]@);
        if leading_zero(parts[0]) || leading_zero(parts[1]) || leading_zero(parts[2]) {
            return None;
        }
        let major = match parse_number(parts[0], u64::MAX) {
            Ok(number) => number,
            Err(_) => {
                return None;
            },
        };
        let minor = match parse_number(parts[1], u64::MAX) {
            Ok(number) => number,
            Err(_) => {
                return None;
            },
        };
        let patch = match parse_number(parts[2], u64::MAX) {
            Ok(number) => number,
            Err(_) => {
                return None;
            },
        };
        Some(StableVersion { major, minor, patch })
    }

    /// Reads the stable version of a release tag.
    pub fn from_tag(tag: &str, prefix: &str) -> (res: Option<StableVersion>)
        ensures
            res == tag_version(tag@, prefix@),
    {
        match strip_prefix(tag, prefix) {
            Some(rest) => {
                assert(tag@.skip(prefix@.len() as int) =~= rest@);
                assert(prefix@.is_prefix_of(tag@));
                StableVersion::parse(rest)
            },
            None => {
                proof {
                    if prefix@.is_prefix_of(tag@) {
                        assert(tag@ =~= prefix@ + tag@.skip(prefix@.len() as int));
                    }
                }
                None
            },
        }
    }

    /// Writes the version.
    pub fn to_string(&self) -> (res: String)
        ensures
            res@ == self.text(),
    {
        let mut res = String::new();
        append_number(&mut res, self.major);
        assert(res@ =~= decimal(self.major as nat));
        res.append(".");
        append_number(&mut res, self.minor);
        res.append(".");
        append_number(&mut res, self.patch);
        res
    }
}

impl PartialOrd for StableVersion {
    fn partial_cmp(&self, other: &StableVersion) -> (res: Option<Ordering>) {
        if self.major < other.major {
            Some(Ordering::Less)
        } else if self.major > other.major {
            Some(Ordering::Greater)
        } else if self.minor < other.minor {
            Some(Ordering::Less)
        } else if self.minor > other.minor {
            Some(Ordering::Greater)
        } else if self.patch < other.patch {
            Some(Ordering::Less)
        } else if self.patch > other.patch {
            Some(Ordering::Greater)
        } else {
            Some(Ordering::Equal)
        }
    }
}

impl vstd::std_specs::cmp::PartialOrdSpecImpl for StableVersion {
    open spec fn obeys_partial_cmp_spec() -> bool {
        true
    }

    open spec fn partial_cmp_spec(&self, other: &StableVersion) -> Option<Ordering> {
        if self.is_newer(*other) {
            Some(Ordering::Greater)
        } else if other.is_newer(*self) {
            Some(Ordering::Less)
        } else {
            Some(Ordering::Equal)
        }
    }
}

/// The order of versions is total: of two versions one is newer, or they are the
/// same; and what is newer than a newer one is newer.
pub proof fn law_versions_are_ordered(a: StableVersion, b: StableVersion, c: StableVersion)
    ensures
        a.is_newer(b) || b.is_newer(a) || a == b,
        !(a.is_newer(b) && b.is_newer(a)),
        !a.is_newer(a),
        a.is_newer(b) && b.is_newer(c) ==> a.is_newer(c),
{
}

/// The three numbers of a version, the most important one first.
pub open spec fn numbers(version: StableVersion) -> Seq<u64> {
    seq![version.major, version.minor, version.patch]
}

/// A version is newer exactly if the first of its numbers that differs is the
/// larger one, whichever of the three that is.
pub proof fn law_first_difference_decides(a: StableVersion, b: StableVersion)
    ensures
        a.is_newer(b) <==> exists|k: int|
            0 <= k < 3 && #[trigger] numbers(a)[k] > numbers(b)[k] && forall|i: int|
                0 <= i < k ==> #[trigger] numbers(a)[i] == numbers(b)[i],
{
    let x = numbers(a);
    let y = numbers(b);
    if a.is_newer(b) {
        if a.major > b.major {
            assert(x[0] > y[0]);
        } else if a.minor > b.minor {
            assert(x[1] > y[1]);
        } else {
            assert(x[2] > y[2]);
        }
    }
    if exists|k: int|
        0 <= k < 3 && #[trigger] x[k] > y[k] && forall|i: int|
            0 <= i < k ==> #[trigger] x[i] == y[i] {
        let k = choose|k: int|
            0 <= k < 3 && #[trigger] x[k] > y[k] && forall|i: int|
                0 <= i < k ==> #[trigger] x[i] == y[i];
        if k > 0 {
            assert(x[0] == y[0]);
        }
        if k > 1 {
            assert(x[1] == y[1]);
        }
    }
}

proof fn lemma_decimal_has_no_mark(n: nat, mark: char)
    requires
        !is_digit(mark),
    ensures
        !decimal(n).contains(mark),
{
    lemma_decimal(n);
    if decimal(n).contains(mark) {
        let k = choose|k: int| 0 <= k < decimal(n).len() && decimal(n)[k] == mark;
        assert(is_digit(decimal(n)[k]));
    }
}

proof fn lemma_decimal_has_no_leading_zero(n: nat)
    ensures
        !has_leading_zero(decimal(n)),
        n > 0 ==> decimal(n)[0] != '0',
    decreases n,
{
    if n >= 10 {
        lemma_decimal(n / 10);
        lemma_decimal_has_no_leading_zero(n / 10);
        assert(decimal(n)[0] == decimal(n / 10)[0]);
    }
}

/// Reading a version that was written gives the version back.
pub proof fn law_version_reads_back(version: StableVersion)
    ensures
        stable_version(version.text()) == Some(version),
        version.text().len() > 0,
{
    reveal_strlit(".");
    let a = decimal(version.major as nat);
    let b = decimal(version.minor as nat);
    let c = decimal(version.patch as nat);
    let list = seq![a, b, c];
    let s = version.text();
    lemma_decimal(version.major as nat);
    assert forall|i: int| 0 <= i < list.len() implies !(#[trigger] list[i]).contains('.') by {
        lemma_decimal_has_no_mark(version.major as nat, '.');
        lemma_decimal_has_no_mark(version.minor as nat, '.');
        lemma_decimal_has_no_mark(version.patch as nat, '.');
    }
    law_joined_pieces(list, '.');
    assert("."@ =~= seq!['.']);
    let last = list.drop_first().drop_first();
    assert(last =~= seq![c]);
    assert(joined(last, seq!['.']) == c);
    let tail = list.drop_first();
    assert(tail.len() == 2 && tail[0] == b);
    assert(joined(tail, seq!['.']) == b + seq!['.'] + c);
    assert(joined(list, seq!['.']) == a + seq!['.'] + (b + seq!['.'] + c));
    assert(s =~= joined(list, seq!['.']));
    lemma_decimal_has_no_leading_zero(version.major as nat);
    lemma_decimal_has_no_leading_zero(version.minor as nat);
    lemma_decimal_has_no_leading_zero(version.patch as nat);
    law_decimal_reads_back(version.major as nat, u64::MAX as nat);
    law_decimal_reads_back(version.minor as nat, u64::MAX as nat);
    law_decimal_reads_back(version.patch as nat, u64::MAX as nat);
    assert forall|mark: char| mark == '-' || mark == '+' implies !#[trigger] s.contains(mark) by {
        lemma_decimal_has_no_mark(version.major as nat, mark);
        lemma_decimal_has_no_mark(version.minor as nat, mark);
        lemma_decimal_has_no_mark(version.patch as nat, mark);
        if s.contains(mark) {
            let k = choose|k: int| 0 <= k < s.len() && s[k] == mark;
            if k < a.len() {
                assert(a[k] == mark);
            } else if a.len() < k < a.len() + 1 + b.len() {
                assert(b[k - a.len() - 1] == mark);
            } else if k > a.len() + 1 + b.len() {
                assert(c[k - a.len() - b.len() - 2] == mark);
            }
        }
    }
}

/// Digits without a leading zero are the way in which their number is written.
proof fn lemma_digits_are_decimal(s: Seq<char>)
    requires
        s.len() > 0,
        !has_leading_zero(s),
        forall|i: int| 0 <= i < s.len() ==> is_digit(#[trigger] s[i]),
    ensures
        s == decimal(digits_value(s)),
        s[0] != '0' ==> digits_value(s) > 0,
    decreases s.len(),
{
    let n = digits_value(s);
    let shorter = s.drop_last();
    assert(is_digit(s[s.len() - 1]));
    if s.len() == 1 {
        assert(shorter =~= Seq::<char>::empty());
        assert(digits_value(shorter) == 0);
        assert(s =~= decimal(n));
    } else {
        assert forall|i: int| 0 <= i < shorter.len() implies is_digit(#[trigger] shorter[i]) by {
            assert(shorter[i] == s[i]);
        }
        lemma_digits_are_decimal(shorter);
        assert(n / 10 == digits_value(shorter) && n % 10 == digit_value(s.last()));
        assert(s =~= decimal(n));
    }
}

proof fn lemma_number_is_decimal(s: Seq<char>)
    requires
        !has_leading_zero(s),
        !s.contains('+'),
        read_number(s, u64::MAX as nat) is Ok,
    ensures
        s == decimal(read_number(s, u64::MAX as nat)->Ok_0),
        read_number(s, u64::MAX as nat)->Ok_0 <= u64::MAX,
{
    assert(s[0] != '+');
    law_read_digits(s, u64::MAX as nat);
    lemma_digits_are_decimal(s);
}

/// A version is written in one way only: a text that is read as a version is the
/// text of that version.
pub proof fn law_version_has_one_text(s: Seq<char>)
    ensures
        stable_version(s) matches Some(version) ==> s == version.text(),
{
    if stable_version(s) is Some {
        reveal_strlit(".");
        let parts = pieces(s, '.');
        law_pieces_rejoin(s, '.');
        let (a, b, c) = (parts[0], parts[1], parts[2]);
        let tail = parts.drop_first();
        let last = tail.drop_first();
        assert(joined(last, seq!['.']) == c);
        assert(joined(tail, seq!['.']) == b + seq!['.'] + c);
        assert(s == a + seq!['.'] + (b + seq!['.'] + c));
        assert forall|i: int| 0 <= i < 3 implies !(#[trigger] parts[i]).contains('+') by {
            if parts[i].contains('+') {
                let k = choose|k: int| 0 <= k < parts[i].len() && parts[i][k] == '+';
                if i == 0 {
                    assert(s[k] == '+');
                } else if i == 1 {
                    assert(s[a.len() + 1 + k] == '+');
                } else {
                    assert(s[a.len() + b.len() + 2 + k] == '+');
                }
            }
        }
        lemma_number_is_decimal(a);
        lemma_number_is_decimal(b);
        lemma_number_is_decimal(c);
        assert("."@ =~= seq!['.']);
        assert(s =~= stable_version(s)->0.text());
    }
}

/// A tag made of the prefix and a version is read as that version.
pub proof fn law_tag_reads_back(version: StableVersion, prefix: Seq<char>)
    ensures
        tag_version(prefix + version.text(), prefix) == Some(version),
{
    law_version_reads_back(version);
    let tag = prefix + version.text();
    assert(tag.skip(prefix.len() as int) =~= version.text());
    assert(prefix.is_prefix_of(tag));
}

/// Three numbers in decimal with dots between them are read as a version with
/// these numbers, in this order.
pub proof fn law_dotted_numbers_are_a_version(major: u64, minor: u64, patch: u64)
    ensures
        stable_version(
            decimal(major as nat) + "."@ + decimal(minor as nat) + "."@ + decimal(patch as nat),
        ) == Some(StableVersion { major, minor, patch }),
{
    law_version_reads_back(StableVersion { major, minor, patch });
}

/// A tag is read as a version exactly if it is the prefix followed by the text of
/// that version.
pub proof fn law_tags_are_prefix_and_version(
    tag: Seq<char>,
    prefix: Seq<char>,
    version: StableVersion,
)
    ensures
        tag_version(tag, prefix) == Some(version) <==> tag == prefix + version.text(),
{
    law_tag_reads_back(version, prefix);
    if tag_version(tag, prefix) == Some(version) {
        law_version_has_one_text(tag.skip(prefix.len() as int));
        assert(tag =~= prefix + tag.skip(prefix.len() as int));
    }
}

} // verus!

use vstd::prelude::*;
use crate::number::{all_digits, decimal_within, digits_value, is_digit};
use crate::text::{concat, find_str, first_occurrence, has_infix, lacks, occurs_at, slice, split_char, split_on, views, lemma_first_occurrence, lemma_split_on_nonempty, lemma_split_on_lead, lemma_split_on_single};

verus! {

/// Which characters beyond ASCII Unicode counts as numbers (general categories Nd, Nl
/// and No).
pub uninterp spec fn non_ascii_numeric(c: char) -> bool;

/// Which characters Unicode counts as numbers: among ASCII characters, the digits.
pub open spec fn numeric_char(c: char) -> bool {
    if (c as u32) < 128 {
        '0' <= c <= '9'
    } else {
        non_ascii_numeric(c)
    }
}

/// Relies on `char::is_numeric`: whether `c` belongs to a number category (of ASCII
/// characters, only the digits do).
#[verifier::external_body]
fn is_numeric(c: char) -> (r: bool)
    ensures
        r == (if (c as u32) < 128 { '0' <= c <= '9' } else { non_ascii_numeric(c) }),
{
    c.is_numeric()
}

/// The characters of `s` that count as numbers, in order.
pub open spec fn numeric_part(s: Seq<char>) -> Seq<char> {
    s.filter(|c: char| numeric_char(c))
}

/// The number in a piece of version text: its numeric characters read as a `u64`, or 0
/// where they do not form one.
pub open spec fn numeric_value(s: Seq<char>) -> u64 {
    match decimal_within(numeric_part(s), u64::MAX as int) {
        Some(v) => v as u64,
        None => 0,
    }
}

pub open spec fn alpha_tag() -> Seq<char> {
    seq!['-', 'a', 'l', 'p', 'h', 'a']
}

pub open spec fn beta_tag() -> Seq<char> {
    seq!['-', 'b', 'e', 't', 'a']
}

pub open spec fn rc_tag() -> Seq<char> {
    seq!['-', 'r', 'c', '-']
}

/// The `k`-th dot-separated piece of `t`, read as a number; 0 where there is none.
pub open spec fn piece_value(t: Seq<char>, k: int) -> u64 {
    let pieces = split_on(t, '.');
    if k < pieces.len() {
        numeric_value(pieces[k])
    } else {
        0
    }
}

/// The pre-release state that text names: 0 for a release, 1 for `-alpha`, 2 for `-beta`
/// (which wins where both occur).
pub open spec fn pre_state_of(t: Seq<char>) -> u8 {
    if has_infix(t, beta_tag()) {
        2
    } else if has_infix(t, alpha_tag()) {
        1
    } else {
        0
    }
}

/// The release-candidate number that text names: what follows the first `-rc-`.
pub open spec fn rc_num_of(t: Seq<char>) -> u64 {
    if has_infix(t, rc_tag()) {
        numeric_value(t.subrange(first_occurrence(t, rc_tag()) + 4, t.len() as int))
    } else {
        0
    }
}

/// A version number: `major.minor.patch`, a pre-release state and a release-candidate
/// number. Versions are ordered by these five fields, in this order; the pre-release
/// states are 0 (release), 1 (alpha) and 2 (beta), so a release orders before an alpha
/// of the same numbers.
#[derive(Clone, Copy, PartialEq, Eq, Structural, PartialOrd, Ord, Debug)]
pub struct Version {
    pub major: u64,
    pub minor: u64,
    pub patch: u64,
    pub pre_state: u8,
    pub rc_num: u64,
}

/// Where `p` first occurs in `t`, or the end of `t` where it does not.
pub open spec fn tag_position(t: Seq<char>, p: Seq<char>) -> int {
    if has_infix(t, p) {
        first_occurrence(t, p)
    } else {
        t.len() as int
    }
}

/// Where the numbers of version text end: at the first `-alpha`, `-beta` or `-rc-`, or
/// at the end.
pub open spec fn numbers_end(t: Seq<char>) -> int {
    let a = tag_position(t, alpha_tag());
    let b = tag_position(t, beta_tag());
    let r = tag_position(t, rc_tag());
    let m = if a < b { a } else { b };
    if m < r { m } else { r }
}

/// The part of version text that holds `major.minor.patch`.
pub open spec fn numbers_part(t: Seq<char>) -> Seq<char> {
    t.subrange(0, numbers_end(t))
}

/// The version that free-form text denotes.
#[verifier::opaque]
pub open spec fn parse_spec(t: Seq<char>) -> Version {
    Version {
        major: piece_value(numbers_part(t), 0),
        minor: piece_value(numbers_part(t), 1),
        patch: piece_value(numbers_part(t), 2),
        pre_state: pre_state_of(t),
        rc_num: rc_num_of(t),
    }
}

/// `a` orders strictly before `b`: lexicographically on the five fields.
pub open spec fn version_lt(a: Version, b: Version) -> bool {
    if a.major != b.major {
        a.major < b.major
    } else if a.minor != b.minor {
        a.minor < b.minor
    } else if a.patch != b.patch {
        a.patch < b.patch
    } else if a.pre_state != b.pre_state {
        a.pre_state < b.pre_state
    } else {
        a.rc_num < b.rc_num
    }
}

pub open spec fn digit_char(d: int) -> char {
    seq!['0', '1', '2', '3', '4', '5', '6', '7', '8', '9'][d]
}

/// The decimal text of `n`, without leading zeros.
pub open spec fn decimal_text(n: nat) -> Seq<char>
    decreases n,
{
    if n < 10 {
        seq![digit_char(n as int)]
    } else {
        decimal_text(n / 10).push(digit_char((n % 10) as int))
    }
}

/// The canonical text of a version: `major.minor.patch`, then `-alpha` or `-beta`, then
/// `-rc-N` where the release-candidate number is not 0.
pub open spec fn version_text(v: Version) -> Seq<char> {
    let base = decimal_text(v.major as nat) + seq!['.'] + decimal_text(v.minor as nat) + seq!['.']
        + decimal_text(v.patch as nat);
    let tagged = if v.pre_state == 1 {
        base + alpha_tag()
    } else if v.pre_state == 2 {
        base + beta_tag()
    } else {
        base
    };
    if v.rc_num != 0 {
        tagged + rc_tag() + decimal_text(v.rc_num as nat)
    } else {
        tagged
    }
}

/// The numeric characters of `s`.
fn keep_numeric(s: &str) -> (r: String)
    ensures
        r@ == numeric_part(s@),
{
    let n = s.unicode_len();
    let mut r = String::new();
    let mut i: usize = 0;
    proof {
        reveal(Seq::filter);
        assert(s@.subrange(0, 0) =~= Seq::<char>::empty());
    }
    while i < n
        invariant
            n == s@.len(),
            i <= n,
            r@ == numeric_part(s@.subrange(0, i as int)),
        decreases n - i,
    {
        let c = s.get_char(i);
        let ghost pre = s@.subrange(0, i as int);
        let ghost next = s@.subrange(0, i + 1);
        proof {
            reveal(Seq::filter);
            assert(next.drop_last() =~= pre);
        }
        if is_numeric(c) {
            let one = s.substring_char(i, i + 1);
            r.append(one);
            assert(r@ =~= numeric_part(next));
        } else {
            assert(r@ =~= numeric_part(next));
        }
        i = i + 1;
    }
    assert(s@.subrange(0, n as int) =~= s@);
    r
}

/// The number in a piece of version text.
fn numeric_piece(s: &str) -> (r: u64)
    ensures
        r == numeric_value(s@),
{
    let kept = keep_numeric(s);
    assert(kept@.subrange(0, kept@.len() as int) =~= kept@);
    match crate::number::digits_within(kept.as_str(), 0, u64::MAX) {
        Some(v) => v,
        None => 0,
    }
}

/// The one-character text of a decimal digit.
fn digit_text(d: u64) -> (r: &'static str)
    requires
        d < 10,
    ensures
        r@ == seq![digit_char(d as int)],
{
    let digits = "0123456789";
    proof {
        reveal_strlit("0123456789");
    }
    let r = digits.substring_char(d as usize, d as usize + 1);
    assert(r@ =~= seq![digit_char(d as int)]);
    r
}

/// The decimal text of `n`.
pub fn decimal(n: u64) -> (r: String)
    ensures
        r@ == decimal_text(n as nat),
{
    if n == 0 {
        return digit_text(0).to_string();
    }
    let mut m = n;
    let mut r = String::new();
    assert(decimal_text(n as nat) =~= decimal_text(m as nat) + r@);
    loop
        invariant_except_break
            m > 0,
            decimal_text(n as nat) == decimal_text(m as nat) + r@,
        ensures
            decimal_text(n as nat) == r@,
        decreases m,
    {
        let d = m % 10;
        let one = digit_text(d);
        let ghost before = r@;
        r = concat(one, r.as_str());
        proof {
            if m >= 10 {
                assert(decimal_text(m as nat) == decimal_text((m / 10) as nat).push(digit_char((m % 10) as int)));
                assert(decimal_text(m as nat) + before =~= decimal_text((m / 10) as nat) + r@);
            } else {
                assert(decimal_text(m as nat) + before =~= r@);
            }
        }
        m = m / 10;
        if m == 0 {
            break;
        }
    }
    r
}

impl Version {
    /// Reads a version from free-form text. It never fails: the dot-separated pieces of
    /// the text before the first `-alpha`, `-beta` or `-rc-` give major, minor and patch
    /// (numeric characters only; a missing or unreadable piece is 0), `-alpha` and `-beta`
    /// give the pre-release state, and the text after the first `-rc-` gives the
    /// release-candidate number.
    pub fn parse(text: String) -> (r: Version)
        ensures
            r == parse_spec(text@),
    {
        proof {
            reveal(parse_spec);
        }
        let t = text.as_str();
        let mut version = Version { major: 0, minor: 0, patch: 0, pre_state: 0, rc_num: 0 };
        proof {
            reveal_strlit("-alpha");
            reveal_strlit("-beta");
            reveal_strlit("-rc-");
            assert("-alpha"@ =~= alpha_tag());
            assert("-beta"@ =~= beta_tag());
            assert("-rc-"@ =~= rc_tag());
        }
        let n = t.unicode_len();
        let mut end: usize = n;
        match find_str(t, "-alpha") {
            Some(i) => {
                version.pre_state = 1;
                end = i;
            },
            None => {},
        }
        match find_str(t, "-beta") {
            Some(i) => {
                version.pre_state = 2;
                if i < end {
                    end = i;
                }
            },
            None => {},
        }
        match find_str(t, "-rc-") {
            Some(i) => {
                let rest = slice(t, i + 4, n);
                version.rc_num = numeric_piece(rest.as_str());
                if i < end {
                    end = i;
                }
            },
            None => {},
        }
        assert(end as int == numbers_end(t@));
        let numbers = slice(t, 0, end);
        let pieces = split_char(numbers.as_str(), '.');
        proof {
            lemma_split_on_nonempty(numbers@, '.');
        }
        assert(views(pieces@)[0] == pieces@[0]@);
        version.major = numeric_piece(pieces[0].as_str());
        if pieces.len() > 1 {
            assert(views(pieces@)[1] == pieces@[1]@);
            version.minor = numeric_piece(pieces[1].as_str());
        }
        if pieces.len() > 2 {
            assert(views(pieces@)[2] == pieces@[2]@);
            version.patch = numeric_piece(pieces[2].as_str());
        }
        version
    }

    /// The canonical text of this version.
    pub fn as_text(&self) -> (r: String)
        ensures
            r@ == version_text(*self),
    {
        proof {
            reveal_strlit(".");
            reveal_strlit("-alpha");
            reveal_strlit("-beta");
            reveal_strlit("-rc-");
            assert("-alpha"@ =~= alpha_tag());
            assert("-beta"@ =~= beta_tag());
            assert("-rc-"@ =~= rc_tag());
        }
        let mut s = decimal(self.major);
        s = concat(s.as_str(), ".");
        s = concat(s.as_str(), decimal(self.minor).as_str());
        s = concat(s.as_str(), ".");
        s = concat(s.as_str(), decimal(self.patch).as_str());
        if self.pre_state == 1 {
            s = concat(s.as_str(), "-alpha");
        }
        if self.pre_state == 2 {
            s = concat(s.as_str(), "-beta");
        }
        if self.rc_num != 0 {
            s = concat(s.as_str(), "-rc-");
            s = concat(s.as_str(), decimal(self.rc_num).as_str());
        }
        assert(s@ =~= version_text(*self));
        s
    }

    /// Whether this version orders strictly before `o`.
    pub fn is_older_than(&self, o: &Version) -> (r: bool)
        ensures
            r == version_lt(*self, *o),
    {
        if self.major != o.major {
            self.major < o.major
        } else if self.minor != o.minor {
            self.minor < o.minor
        } else if self.patch != o.patch {
            self.patch < o.patch
        } else if self.pre_state != o.pre_state {
            self.pre_state < o.pre_state
        } else {
            self.rc_num < o.rc_num
        }
    }
}

proof fn lemma_digit_char(d: int)
    requires
        0 <= d < 10,
    ensures
        digit_char(d) as int == '0' as int + d,
        is_digit(digit_char(d)),
{
    let s = seq!['0', '1', '2', '3', '4', '5', '6', '7', '8', '9'];
    if d == 0 {
        assert(s[0] == '0');
    } else if d == 1 {
        assert(s[1] == '1');
    } else if d == 2 {
        assert(s[2] == '2');
    } else if d == 3 {
        assert(s[3] == '3');
    } else if d == 4 {
        assert(s[4] == '4');
    } else if d == 5 {
        assert(s[5] == '5');
    } else if d == 6 {
        assert(s[6] == '6');
    } else if d == 7 {
        assert(s[7] == '7');
    } else if d == 8 {
        assert(s[8] == '8');
    } else {
        assert(s[9] == '9');
    }
}

proof fn lemma_decimal_text(n: nat)
    ensures
        decimal_text(n).len() > 0,
        all_digits(decimal_text(n)),
        digits_value(decimal_text(n)) == n,
    decreases n,
{
    let t = decimal_text(n);
    if n < 10 {
        lemma_digit_char(n as int);
        assert(t.drop_last() =~= Seq::<char>::empty());
        assert(t.last() == digit_char(n as int));
        assert(digits_value(t) == digits_value(t.drop_last()) * 10 + (t.last() as int - '0' as int));
        assert(digits_value(Seq::<char>::empty()) == 0);
    } else {
        lemma_decimal_text(n / 10);
        lemma_digit_char((n % 10) as int);
        let p = decimal_text(n / 10);
        assert(t.drop_last() =~= p);
        assert forall|j: int| 0 <= j < t.len() implies is_digit(#[trigger] t[j]) by {
            if j < p.len() {
                assert(t[j] == p[j]);
            }
        }
        assert(t.last() == digit_char((n % 10) as int));
        assert(digits_value(t) == digits_value(p) * 10 + (t.last() as int - '0' as int));
        assert((n / 10) * 10 + n % 10 == n);
    }
}

proof fn lemma_numeric_part_digits(s: Seq<char>)
    requires
        all_digits(s),
    ensures
        numeric_part(s) == s,
    decreases s.len(),
{
    reveal(Seq::filter);
    if s.len() > 0 {
        let d = s.drop_last();
        assert(all_digits(d)) by {
            assert forall|j: int| 0 <= j < d.len() implies is_digit(#[trigger] d[j]) by {
                assert(d[j] == s[j]);
            }
        }
        lemma_numeric_part_digits(d);
        assert(is_digit(s[s.len() - 1]));
        assert(d.push(s.last()) =~= s);
    }
}

/// The tag that canonical text gives a pre-release state.
pub open spec fn pre_tag(p: u8) -> Seq<char> {
    if p == 1 {
        alpha_tag()
    } else if p == 2 {
        beta_tag()
    } else {
        Seq::empty()
    }
}

/// The release-candidate suffix of canonical text.
pub open spec fn rc_text(n: u64) -> Seq<char> {
    if n != 0 {
        rc_tag() + decimal_text(n as nat)
    } else {
        Seq::empty()
    }
}

proof fn lemma_pre_tag(p: u8)
    ensures
        lacks(pre_tag(p), '.'),
        forall|j: int| 0 < j < pre_tag(p).len() ==> pre_tag(p)[j] != '-',
        pre_tag(p).len() > 0 ==> pre_tag(p).len() >= 2 && pre_tag(p)[0] == '-' && pre_tag(p)[1] == (if p == 1 { 'a' } else { 'b' }),
        (p != 1 && p != 2) ==> pre_tag(p).len() == 0,
{
    let t = pre_tag(p);
    if p == 1 {
        assert(t =~= seq!['-', 'a', 'l', 'p', 'h', 'a']);
    } else if p == 2 {
        assert(t =~= seq!['-', 'b', 'e', 't', 'a']);
    }
    assert forall|i: int| 0 <= i < t.len() implies t[i] != '.' && (i > 0 ==> t[i] != '-') by {
        if p == 1 {
            assert(t[0] == '-' && t[1] == 'a' && t[2] == 'l' && t[3] == 'p' && t[4] == 'h' && t[5] == 'a');
        } else if p == 2 {
            assert(t[0] == '-' && t[1] == 'b' && t[2] == 'e' && t[3] == 't' && t[4] == 'a');
        }
    }
}

/// In `base + tag + rc_text(n)`, a `-` starts the tag, starts `-rc-`, or ends `-rc-` just
/// before the release-candidate digits.
proof fn lemma_dash_positions(base: Seq<char>, tag: Seq<char>, n: u64, j: int)
    requires
        lacks(base, '-'),
        forall|k: int| 0 < k < tag.len() ==> tag[k] != '-',
        tag.len() > 0 ==> tag.len() >= 2 && tag[0] == '-',
        0 <= j < (base + tag + rc_text(n)).len(),
        (base + tag + rc_text(n))[j] == '-',
    ensures
        (j == base.len() && tag.len() > 0 && (base + tag + rc_text(n))[j + 1] == tag[1])
        || (j == base.len() + tag.len() && n != 0 && (base + tag + rc_text(n))[j + 1] == 'r')
        || (j == base.len() + tag.len() + 3 && n != 0 && is_digit((base + tag + rc_text(n))[j + 1])),
{
    let text = base + tag + rc_text(n);
    let bl = base.len() as int;
    let tl = tag.len() as int;
    if j < bl {
        assert(text[j] == base[j]);
    } else if j < bl + tl {
        assert(text[j] == tag[j - bl]);
        if j == bl {
            assert(text[j + 1] == tag[1]);
        }
    } else {
        let k = j - bl - tl;
        let r = rc_text(n);
        assert(text[j] == r[k]);
        assert(n != 0);
        let d = decimal_text(n as nat);
        lemma_decimal_text(n as nat);
        assert(r =~= seq!['-', 'r', 'c', '-'] + d);
        if k == 0 {
            assert(text[j + 1] == r[1]);
        } else if k == 3 {
            assert(text[j + 1] == r[4]);
            assert(r[4] == d[0]);
        } else if k >= 4 {
            assert(r[k] == d[k - 4]);
            assert(is_digit(d[k - 4]));
        }
    }
}

proof fn lemma_occurrence_start(text: Seq<char>, p: Seq<char>, i: int)
    requires
        occurs_at(text, p, i),
        p.len() >= 2,
    ensures
        text[i] == p[0],
        text[i + 1] == p[1],
{
    assert(text.subrange(i, i + p.len())[0] == text[i]);
    assert(text.subrange(i, i + p.len())[1] == text[i + 1]);
}

/// Canonical text reads back as the version it was written from, for every version with
/// a known pre-release state.
pub proof fn lemma_version_text_round_trip(v: Version)
    requires
        v.pre_state <= 2,
    ensures
        parse_spec(version_text(v)) == v,
{
    reveal(parse_spec);
    let a = decimal_text(v.major as nat);
    let b = decimal_text(v.minor as nat);
    let c = decimal_text(v.patch as nat);
    let tag = pre_tag(v.pre_state);
    let rcp = rc_text(v.rc_num);
    let base = a + seq!['.'] + b + seq!['.'] + c;
    let text = version_text(v);
    let bl = base.len() as int;
    let tl = tag.len() as int;
    assert(text =~= base + tag + rcp);
    lemma_decimal_text(v.major as nat);
    lemma_decimal_text(v.minor as nat);
    lemma_decimal_text(v.patch as nat);
    lemma_decimal_text(v.rc_num as nat);
    lemma_pre_tag(v.pre_state);
    assert forall|x: Seq<char>| #[trigger] all_digits(x) implies lacks(x, '.') && lacks(x, '-') by {
        assert forall|j: int| 0 <= j < x.len() implies x[j] != '.' && x[j] != '-' by {
            assert(is_digit(x[j]));
        }
    }
    assert(lacks(base, '-')) by {
        assert forall|j: int| 0 <= j < base.len() implies base[j] != '-' by {
            if j < a.len() {
                assert(base[j] == a[j]);
            } else if j == a.len() {
            } else if j < a.len() + 1 + b.len() {
                assert(base[j] == b[j - a.len() - 1]);
            } else if j == a.len() + 1 + b.len() {
            } else {
                assert(base[j] == c[j - a.len() - 2 - b.len()]);
            }
        }
    }
    assert(alpha_tag()[0] == '-' && alpha_tag()[1] == 'a' && alpha_tag().len() == 6);
    assert(beta_tag()[0] == '-' && beta_tag()[1] == 'b' && beta_tag().len() == 5);
    assert(rc_tag()[0] == '-' && rc_tag()[1] == 'r' && rc_tag().len() == 4);
    // where each tag can occur
    assert forall|i: int| occurs_at(text, beta_tag(), i) implies i == bl && v.pre_state == 2 by {
        lemma_occurrence_start(text, beta_tag(), i);
        lemma_dash_positions(base, tag, v.rc_num, i);
    }
    assert forall|i: int| occurs_at(text, alpha_tag(), i) implies i == bl && v.pre_state == 1 by {
        lemma_occurrence_start(text, alpha_tag(), i);
        lemma_dash_positions(base, tag, v.rc_num, i);
    }
    assert forall|i: int| occurs_at(text, rc_tag(), i) implies i == bl + tl && v.rc_num != 0 by {
        lemma_occurrence_start(text, rc_tag(), i);
        lemma_dash_positions(base, tag, v.rc_num, i);
    }
    // where they do occur
    if v.pre_state == 2 {
        assert(text.subrange(bl, bl + 5) =~= beta_tag());
        assert(occurs_at(text, beta_tag(), bl));
        lemma_first_occurrence(text, beta_tag(), bl);
    }
    if v.pre_state == 1 {
        assert(text.subrange(bl, bl + 6) =~= alpha_tag());
        assert(occurs_at(text, alpha_tag(), bl));
        lemma_first_occurrence(text, alpha_tag(), bl);
    }
    if v.rc_num != 0 {
        assert(text.subrange(bl + tl, bl + tl + 4) =~= rc_tag());
        assert(occurs_at(text, rc_tag(), bl + tl));
        lemma_first_occurrence(text, rc_tag(), bl + tl);
        let d = decimal_text(v.rc_num as nat);
        assert(text.subrange(bl + tl + 4, text.len() as int) =~= d);
        lemma_numeric_part_digits(d);
        assert(rc_num_of(text) == v.rc_num);
    } else {
        assert(!has_infix(text, rc_tag()));
        assert(rc_num_of(text) == 0);
    }
    assert(pre_state_of(text) == v.pre_state);
    // the numbers end where the tags begin
    assert(numbers_end(text) == bl);
    assert(numbers_part(text) =~= base);
    assert(base =~= a + seq!['.'] + (b + seq!['.'] + c));
    lemma_split_on_lead(a, '.', b + seq!['.'] + c);
    lemma_split_on_lead(b, '.', c);
    lemma_split_on_single(c, '.');
    assert(split_on(base, '.') =~= seq![a, b, c]);
    lemma_numeric_part_digits(a);
    lemma_numeric_part_digits(b);
    lemma_numeric_part_digits(c);
    assert(piece_value(base, 0) == v.major);
    assert(piece_value(base, 1) == v.minor);
    assert(piece_value(base, 2) == v.patch);
}

} // verus!

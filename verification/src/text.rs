//! String helpers shared by the alias extractor and the rule importer:
//! local-part extraction, suffix stripping, trimming, splitting, and
//! domain normalization.
use vstd::prelude::*;
use vstd::string::*;

verus! {

/// The characters of `s` before its first `'@'`; all of `s` when none occurs.
pub open spec fn local_part_of(s: Seq<char>) -> Seq<char> {
    match s.index_of_first('@') {
        Some(i) => s.subrange(0, i),
        None => s,
    }
}

/// Returns the portion of `address` before the first `'@'`, or the whole
/// string when no `'@'` occurs.
pub fn remove_domain(address: &str) -> (r: String)
    ensures
        r@ == local_part_of(address@),
{
    let len = address.unicode_len();
    let mut i: usize = 0;
    while i < len
        invariant
            len == address@.len(),
            i <= len,
            forall|j: int| 0 <= j < i ==> address@[j] != '@',
        decreases len - i,
    {
        if address.get_char(i) == '@' {
            let prefix = address.substring_char(0, i);
            proof {
                address@.index_of_first_ensures('@');
            }
            return prefix.to_owned();
        }
        i += 1;
    }
    proof {
        address@.index_of_first_ensures('@');
    }
    address.to_owned()
}

/// A local part never holds the separator: everything from the first `'@'`
/// on is stripped, so what is stored is free of `'@'`.
pub proof fn lemma_local_part_no_separator(s: Seq<char>)
    ensures
        forall|j: int| 0 <= j < local_part_of(s).len() ==> local_part_of(s)[j] != '@',
{
    s.index_of_first_ensures('@');
    if s.index_of_first('@') is None {
        assert forall|j: int| 0 <= j < local_part_of(s).len() implies local_part_of(s)[j] != '@' by {
            if s[j] == '@' {
                assert(s.contains('@'));
            }
        }
    }
}

/// Whether `s` equals `"true"` up to ASCII case.
pub open spec fn ci_true(s: Seq<char>) -> bool {
    &&& s.len() == 4
    &&& (s[0] == 't' || s[0] == 'T')
    &&& (s[1] == 'r' || s[1] == 'R')
    &&& (s[2] == 'u' || s[2] == 'U')
    &&& (s[3] == 'e' || s[3] == 'E')
}

/// Case-insensitive comparison against the literal `"true"`.
pub fn eq_true_ignore_case(s: &str) -> (r: bool)
    ensures
        r == ci_true(s@),
{
    if s.unicode_len() != 4 {
        return false;
    }
    let c0 = s.get_char(0);
    let c1 = s.get_char(1);
    let c2 = s.get_char(2);
    let c3 = s.get_char(3);
    (c0 == 't' || c0 == 'T') && (c1 == 'r' || c1 == 'R') && (c2 == 'u' || c2 == 'U') && (c3 == 'e'
        || c3 == 'E')
}

/// Whether `s` ends with `suffix`.
pub open spec fn ends_with(s: Seq<char>, suffix: Seq<char>) -> bool {
    s.len() >= suffix.len() && s.subrange(s.len() - suffix.len(), s.len() as int) == suffix
}

/// Character-wise suffix test.
pub fn str_ends_with(s: &str, suffix: &str) -> (r: bool)
    ensures
        r == ends_with(s@, suffix@),
{
    let sl = s.unicode_len();
    let fl = suffix.unicode_len();
    if sl < fl {
        return false;
    }
    let base = sl - fl;
    let mut i: usize = 0;
    while i < fl
        invariant
            sl == s@.len(),
            fl == suffix@.len(),
            fl <= sl,
            base == sl - fl,
            i <= fl,
            forall|j: int| 0 <= j < i ==> s@[base + j] == suffix@[j],
        decreases fl - i,
    {
        if s.get_char(base + i) != suffix.get_char(i) {
            proof {
                assert(s@.subrange(base as int, sl as int)[i as int] != suffix@[i as int]);
            }
            return false;
        }
        i += 1;
    }
    proof {
        assert(s@.subrange(base as int, sl as int) =~= suffix@);
    }
    true
}

/// `s` with every trailing occurrence of `suffix` removed, as
/// `str::trim_end_matches` does.
pub open spec fn strip_suffix_rec(s: Seq<char>, suffix: Seq<char>) -> Seq<char>
    decreases s.len(),
{
    if suffix.len() > 0 && ends_with(s, suffix) {
        strip_suffix_rec(s.subrange(0, s.len() - suffix.len()), suffix)
    } else {
        s
    }
}

/// Removes every trailing occurrence of `suffix` from `s`.
pub fn strip_domain_suffix(s: &str, suffix: &str) -> (r: String)
    ensures
        r@ == strip_suffix_rec(s@, suffix@),
{
    let suf_len = suffix.unicode_len();
    if suf_len == 0 {
        return s.to_owned();
    }
    let mut cur: String = s.to_owned();
    loop
        invariant_except_break
            suffix@.len() == suf_len,
            suf_len > 0,
            strip_suffix_rec(cur@, suffix@) == strip_suffix_rec(s@, suffix@),
        ensures
            cur@ == strip_suffix_rec(s@, suffix@),
        decreases cur@.len(),
    {
        if !str_ends_with(cur.as_str(), suffix) {
            proof {
                assert(strip_suffix_rec(cur@, suffix@) == cur@);
            }
            break ;
        }
        let len = cur.unicode_len();
        let cut = len - suf_len;
        let next = cur.as_str().substring_char(0, cut).to_owned();
        cur = next;
    }
    cur
}

/// ASCII whitespace, as far as trimming is concerned.
pub open spec fn is_space(c: char) -> bool {
    c == ' ' || c == '\t' || c == '\n' || c == '\r'
}

/// `s` without leading whitespace.
pub open spec fn trim_front(s: Seq<char>) -> Seq<char>
    decreases s.len(),
{
    if s.len() > 0 && is_space(s[0]) {
        trim_front(s.drop_first())
    } else {
        s
    }
}

/// `s` without trailing whitespace.
pub open spec fn trim_back(s: Seq<char>) -> Seq<char>
    decreases s.len(),
{
    if s.len() > 0 && is_space(s.last()) {
        trim_back(s.drop_last())
    } else {
        s
    }
}

/// `s` without leading or trailing whitespace.
pub open spec fn trimmed(s: Seq<char>) -> Seq<char> {
    trim_back(trim_front(s))
}

proof fn lemma_trim_front_subrange(s: Seq<char>, a: int)
    requires
        0 <= a <= s.len(),
        forall|j: int| 0 <= j < a ==> is_space(s[j]),
        a < s.len() ==> !is_space(s[a]),
    ensures
        trim_front(s) == s.subrange(a, s.len() as int),
    decreases a,
{
    if a == 0 {
        assert(trim_front(s) == s);
        assert(s.subrange(0, s.len() as int) =~= s);
    } else {
        assert(is_space(s[0]));
        lemma_trim_front_subrange(s.drop_first(), a - 1);
        assert(s.drop_first().subrange(a - 1, s.drop_first().len() as int) =~= s.subrange(
            a,
            s.len() as int,
        ));
    }
}

proof fn lemma_trim_back_subrange(s: Seq<char>, b: int)
    requires
        0 <= b <= s.len(),
        forall|j: int| b <= j < s.len() ==> is_space(s[j]),
        b > 0 ==> !is_space(s[b - 1]),
    ensures
        trim_back(s) == s.subrange(0, b),
    decreases s.len() - b,
{
    if b == s.len() {
        if s.len() > 0 {
            assert(!is_space(s.last()));
        }
        assert(trim_back(s) == s);
        assert(s.subrange(0, s.len() as int) =~= s);
    } else {
        assert(is_space(s.last()));
        lemma_trim_back_subrange(s.drop_last(), b);
        assert(s.drop_last().subrange(0, b) =~= s.subrange(0, b));
    }
}

/// Removes leading and trailing ASCII whitespace.
pub fn trim_spaces(s: &str) -> (r: String)
    ensures
        r@ == trimmed(s@),
{
    let len = s.unicode_len();
    let mut a: usize = 0;
    while a < len && is_space_char(s.get_char(a))
        invariant
            len == s@.len(),
            a <= len,
            forall|j: int| 0 <= j < a ==> is_space(s@[j]),
        decreases len - a,
    {
        a += 1;
    }
    proof {
        lemma_trim_front_subrange(s@, a as int);
    }
    if a == len {
        proof {
            assert(trim_front(s@) =~= Seq::<char>::empty());
            assert(trim_back(Seq::<char>::empty()) == Seq::<char>::empty());
        }
        return String::new();
    }
    let mut b: usize = len;
    while b > a && is_space_char(s.get_char(b - 1))
        invariant
            len == s@.len(),
            a <= b <= len,
            a < len,
            !is_space(s@[a as int]),
            forall|j: int| b <= j < len ==> is_space(s@[j]),
        decreases b,
    {
        b -= 1;
    }
    let r = s.substring_char(a, b).to_owned();
    proof {
        let front = s@.subrange(a as int, len as int);
        lemma_trim_back_subrange(front, b - a);
        assert(front.subrange(0, b - a) =~= s@.subrange(a as int, b as int));
    }
    r
}

/// Executable test for [`is_space`].
pub fn is_space_char(c: char) -> (r: bool)
    ensures
        r == is_space(c),
{
    c == ' ' || c == '\t' || c == '\n' || c == '\r'
}

/// The pieces of `s` between single `' '` characters, empty pieces kept.
pub open spec fn split_spaces(s: Seq<char>) -> Seq<Seq<char>>
    decreases s.len(),
    via split_spaces_decreases
{
    match s.index_of_first(' ') {
        Some(i) => seq![s.subrange(0, i)] + split_spaces(s.subrange(i + 1, s.len() as int)),
        None => seq![s],
    }
}

#[via_fn]
proof fn split_spaces_decreases(s: Seq<char>) {
    s.index_of_first_ensures(' ');
}

/// Splits on each single `' '`, keeping empty pieces, as `str::split(' ')`
/// does.
pub fn split_on_spaces(s: &str) -> (r: Vec<String>)
    ensures
        r.deep_view() == split_spaces(s@),
{
    let len = s.unicode_len();
    let mut parts: Vec<String> = Vec::new();
    proof {
        assert(parts.deep_view() =~= Seq::<Seq<char>>::empty());
        assert(s@.subrange(0, len as int) =~= s@);
        assert(Seq::<Seq<char>>::empty() + split_spaces(s@) =~= split_spaces(s@));
    }
    let mut start: usize = 0;
    let mut i: usize = 0;
    while i < len
        invariant
            len == s@.len(),
            start <= i <= len,
            forall|j: int| start <= j < i ==> s@[j] != ' ',
            split_spaces(s@) == parts.deep_view() + split_spaces(
                s@.subrange(start as int, len as int),
            ),
        decreases len - i,
    {
        if s.get_char(i) == ' ' {
            let token = s.substring_char(start, i).to_owned();
            let ghost pd = parts.deep_view();
            proof {
                let rest = s@.subrange(start as int, len as int);
                rest.index_of_first_ensures(' ');
                assert(rest[i - start] == ' ');
                assert(rest.index_of_first(' ') matches Some(k) ==> {
                    &&& rest.subrange(0, k) =~= s@.subrange(start as int, i as int)
                    &&& rest.subrange(k + 1, rest.len() as int) =~= s@.subrange(
                        i + 1,
                        len as int,
                    )
                });
            }
            parts.push(token);
            proof {
                assert(parts.deep_view() =~= pd + seq![token@]);
                assert((pd + seq![token@]) + split_spaces(s@.subrange(i + 1, len as int)) =~= pd
                    + (seq![token@] + split_spaces(s@.subrange(i + 1, len as int))));
            }
            start = i + 1;
        }
        i += 1;
    }
    let token = s.substring_char(start, len).to_owned();
    let ghost pd = parts.deep_view();
    proof {
        let rest = s@.subrange(start as int, len as int);
        rest.index_of_first_ensures(' ');
        assert(rest.index_of_first(' ') is None);
    }
    parts.push(token);
    proof {
        assert(parts.deep_view() =~= pd + seq![token@]);
    }
    parts
}

/// `d` with a `'@'` prepended unless it already begins with one.
pub open spec fn with_leading_at(d: Seq<char>) -> Seq<char> {
    if d.len() > 0 && d[0] == '@' {
        d
    } else {
        seq!['@'] + d
    }
}

/// Normalizes a domain so that it begins with `'@'`.
pub fn domain_with_at(d: &str) -> (r: String)
    ensures
        r@ == with_leading_at(d@),
{
    if d.unicode_len() > 0 && d.get_char(0) == '@' {
        d.to_owned()
    } else {
        let r = String::from_str("@").concat(d);
        proof {
            reveal_strlit("@");
            assert("@"@ =~= seq!['@']);
        }
        r
    }
}

/// `d` without its leading `'@'`, when it has one.
pub open spec fn without_leading_at(d: Seq<char>) -> Seq<char> {
    if d.len() > 0 && d[0] == '@' {
        d.subrange(1, d.len() as int)
    } else {
        d
    }
}

/// Normalizes a domain so that it does not begin with `'@'`.
pub fn domain_without_at(d: &str) -> (r: String)
    ensures
        r@ == without_leading_at(d@),
{
    let len = d.unicode_len();
    if len > 0 && d.get_char(0) == '@' {
        d.substring_char(1, len).to_owned()
    } else {
        d.to_owned()
    }
}

/// String equality through the character sequences.
pub fn str_eq(a: &str, b: &str) -> (r: bool)
    ensures
        r == (a@ == b@),
{
    let sa: String = a.to_owned();
    let sb: String = b.to_owned();
    sa == sb
}

} // verus!

//! Verified string helpers: equality, prefix tests, splitting, comma-joining,
//! comma-escaping, decimal formatting and decimal parsing.
//!
//! Every executable function here is specified against the character view
//! (`Seq<char>`) of its arguments.

use vstd::prelude::*;
use vstd::string::*;

verus! {

/// The character views of a sequence of owned strings.
pub open spec fn views(xs: Seq<String>) -> Seq<Seq<char>> {
    xs.map_values(|s: String| s@)
}

/// Pushing a string onto a vector pushes its view onto the sequence of views.
pub proof fn lemma_views_push(xs: Seq<String>, x: String)
    ensures
        views(xs.push(x)) =~= views(xs).push(x@),
{
}

/// Taking a prefix of the views is the view of the prefix.
pub proof fn lemma_views_take(xs: Seq<String>, n: int)
    requires
        0 <= n <= xs.len(),
    ensures
        views(xs.take(n)) =~= views(xs).take(n),
{
}

/// True exactly when the two string slices hold the same characters.
pub fn str_eq(a: &str, b: &str) -> (r: bool)
    ensures
        r == (a@ == b@),
{
    let alen: usize = a.unicode_len();
    let blen: usize = b.unicode_len();
    if alen != blen {
        return false;
    }
    let mut i: usize = 0;
    while i < alen
        invariant
            alen == a@.len(),
            blen == b@.len(),
            alen == blen,
            i <= alen,
            forall|j: int| 0 <= j < i ==> a@[j] == b@[j],
        decreases alen - i,
    {
        if a.get_char(i) != b.get_char(i) {
            return false;
        }
        i += 1;
    }
    proof {
        assert(a@ =~= b@);
    }
    true
}

/// True exactly when `p` is a prefix of `s`.
pub fn has_prefix(s: &str, p: &str) -> (r: bool)
    ensures
        r == p@.is_prefix_of(s@),
{
    let slen: usize = s.unicode_len();
    let plen: usize = p.unicode_len();
    if plen > slen {
        return false;
    }
    let mut i: usize = 0;
    while i < plen
        invariant
            slen == s@.len(),
            plen == p@.len(),
            plen <= slen,
            i <= plen,
            forall|j: int| 0 <= j < i ==> p@[j] == s@[j],
        decreases plen - i,
    {
        if p.get_char(i) != s.get_char(i) {
            proof {
                assert(s@.subrange(0, p@.len() as int)[i as int] == s@[i as int]);
            }
            return false;
        }
        i += 1;
    }
    proof {
        assert(p@ =~= s@.subrange(0, p@.len() as int));
    }
    true
}

/// The characters of `s` from position `from` to the end, as an owned string.
pub fn tail_from(s: &str, from: usize) -> (r: String)
    requires
        from <= s@.len(),
    ensures
        r@ == s@.skip(from as int),
{
    let len: usize = s.unicode_len();
    let sub: &str = s.substring_char(from, len);
    let r = String::from_str(sub);
    proof {
        assert(r@ =~= s@.skip(from as int));
    }
    r
}

/// The elements of `xs` joined by single commas: no separator for a single
/// element, one comma between each adjacent pair, no deduplication.
pub open spec fn spec_join(xs: Seq<Seq<char>>) -> Seq<char>
    decreases xs.len(),
{
    if xs.len() == 0 {
        Seq::empty()
    } else if xs.len() == 1 {
        xs[0]
    } else {
        spec_join(xs.drop_last()) + seq![','] + xs.last()
    }
}

/// Joins the strings with commas, preserving order and duplicates.
pub fn join_commas(items: &Vec<String>) -> (r: String)
    ensures
        r@ == spec_join(views(items@)),
{
    let ghost vs = views(items@);
    let mut r = String::new();
    proof {
        assert(vs.take(0) =~= Seq::<Seq<char>>::empty());
    }
    let mut i: usize = 0;
    while i < items.len()
        invariant
            i <= items@.len(),
            vs == views(items@),
            vs.len() == items@.len(),
            r@ == spec_join(vs.take(i as int)),
        decreases items@.len() - i,
    {
        if i > 0 {
            r.append(",");
        }
        r.append(items[i].as_str());
        proof {
            reveal_strlit(",");
            assert(","@ =~= seq![',']);
            assert(vs.take(i + 1).drop_last() =~= vs.take(i as int));
            assert(vs.take(i + 1).last() == items@[i as int]@);
            if i == 0 {
                assert(r@ =~= spec_join(vs.take(i + 1)));
            } else {
                assert(r@ =~= spec_join(vs.take(i + 1)));
            }
        }
        i += 1;
    }
    proof {
        assert(vs.take(items@.len() as int) =~= vs);
    }
    r
}

/// Each literal comma in `s` doubled; all other characters unchanged.
pub open spec fn spec_escape(s: Seq<char>) -> Seq<char>
    decreases s.len(),
{
    if s.len() == 0 {
        Seq::empty()
    } else {
        spec_escape(s.drop_last()) + (if s.last() == ',' {
            seq![',', ',']
        } else {
            seq![s.last()]
        })
    }
}

/// Doubles every comma in the string.
pub fn escape_commas(s: &str) -> (r: String)
    ensures
        r@ == spec_escape(s@),
{
    let len: usize = s.unicode_len();
    let mut r = String::new();
    proof {
        assert(s@.take(0) =~= Seq::<char>::empty());
    }
    let mut i: usize = 0;
    while i < len
        invariant
            len == s@.len(),
            i <= len,
            r@ == spec_escape(s@.take(i as int)),
        decreases len - i,
    {
        let c = s.get_char(i);
        if c == ',' {
            r.append(",,");
        } else {
            let piece = s.substring_char(i, i + 1);
            r.append(piece);
            proof {
                assert(s@.subrange(i as int, i + 1) =~= seq![s@[i as int]]);
            }
        }
        proof {
            reveal_strlit(",,");
            assert(",,"@ =~= seq![',', ',']);
            assert(s@.take(i + 1).drop_last() =~= s@.take(i as int));
            assert(s@.take(i + 1).last() == s@[i as int]);
            assert(r@ =~= spec_escape(s@.take(i + 1)));
        }
        i += 1;
    }
    proof {
        assert(s@.take(len as int) =~= s@);
    }
    r
}

/// The comma-escaped form of each element.
pub open spec fn escaped_views(xs: Seq<Seq<char>>) -> Seq<Seq<char>> {
    xs.map_values(|s: Seq<char>| spec_escape(s))
}

/// Escapes each element's commas by doubling, then joins with plain commas.
pub fn join_escaped(items: &Vec<String>) -> (r: String)
    ensures
        r@ == spec_join(escaped_views(views(items@))),
{
    let ghost evs = escaped_views(views(items@));
    let mut esc: Vec<String> = Vec::new();
    proof {
        assert(views(esc@) =~= evs.take(0));
    }
    let mut i: usize = 0;
    while i < items.len()
        invariant
            i <= items@.len(),
            evs == escaped_views(views(items@)),
            evs.len() == items@.len(),
            views(esc@) == evs.take(i as int),
        decreases items@.len() - i,
    {
        let e = escape_commas(items[i].as_str());
        proof {
            lemma_views_push(esc@, e);
        }
        esc.push(e);
        proof {
            assert(views(esc@) =~= evs.take(i + 1));
        }
        i += 1;
    }
    proof {
        assert(evs.take(items@.len() as int) =~= evs);
    }
    join_commas(&esc)
}

/// True when the character is a decimal digit.
pub open spec fn is_dec_digit(c: char) -> bool {
    48 <= c as int <= 57
}

/// True when every character of `s` is a decimal digit.
pub open spec fn all_digits(s: Seq<char>) -> bool {
    forall|i: int| 0 <= i < s.len() ==> is_dec_digit(s[i])
}

/// The value of a digit string read in base ten; most significant first.
pub open spec fn digits_val(s: Seq<char>) -> int
    decreases s.len(),
{
    if s.len() == 0 {
        0
    } else {
        digits_val(s.drop_last()) * 10 + (s.last() as int - 48)
    }
}

/// A well-formed port: one to five digits whose value fits in sixteen bits.
pub open spec fn is_port_text(s: Seq<char>) -> bool {
    0 < s.len() <= 5 && all_digits(s) && digits_val(s) <= 65535
}

/// Ten to the power `n`.
pub open spec fn pow10(n: nat) -> int
    decreases n,
{
    if n == 0 {
        1
    } else {
        10 * pow10((n - 1) as nat)
    }
}

/// The value of an all-digit string is nonnegative and below `pow10` of its
/// length.
pub proof fn lemma_digits_val_bound(s: Seq<char>)
    requires
        all_digits(s),
    ensures
        0 <= digits_val(s) < pow10(s.len() as nat),
    decreases s.len(),
{
    if s.len() > 0 {
        assert(all_digits(s.drop_last())) by {
            assert(forall|i: int|
                0 <= i < s.len() - 1 ==> s.drop_last()[i] == s[i] && is_dec_digit(#[trigger] s[i]));
        }
        lemma_digits_val_bound(s.drop_last());
        assert(is_dec_digit(s.last()));
    }
}

/// Parses the whole string as a port number.
///
/// Returns the value exactly when the string is well-formed port text.
pub fn parse_port(s: &str) -> (r: Option<u16>)
    ensures
        r is Some <==> is_port_text(s@),
        r matches Some(p) ==> p as int == digits_val(s@),
{
    let len: usize = s.unicode_len();
    if len == 0 || len > 5 {
        return None;
    }
    let mut val: u32 = 0;
    let mut i: usize = 0;
    proof {
        assert(s@.take(0) =~= Seq::<char>::empty());
        reveal_with_fuel(pow10, 6);
    }
    let mut valid = true;
    while i < len
        invariant
            len == s@.len(),
            0 < len <= 5,
            i <= len,
            valid,
            all_digits(s@.take(i as int)),
            val as int == digits_val(s@.take(i as int)),
        decreases len - i,
    {
        let c = s.get_char(i);
        let u: u32 = c as u32;
        if u < 48 || u > 57 {
            proof {
                assert(!is_dec_digit(s@[i as int]));
                assert(!all_digits(s@));
            }
            return None;
        }
        proof {
            assert(s@.take(i + 1).drop_last() =~= s@.take(i as int));
            assert(s@.take(i + 1).last() == s@[i as int]);
            assert(all_digits(s@.take(i + 1))) by {
                assert(forall|j: int|
                    0 <= j < i + 1 ==> s@.take(i + 1)[j] == #[trigger] s@.take(i + 1)[j]
                        && is_dec_digit(s@.take(i + 1)[j]));
            }
            lemma_digits_val_bound(s@.take(i as int));
            lemma_pow10_le((i as nat));
        }
        val = val * 10 + (u - 48);
        i += 1;
    }
    proof {
        assert(s@.take(len as int) =~= s@);
    }
    if val > 65535 {
        return None;
    }
    Some(val as u16)
}

/// `pow10` of anything up to four stays at or below ten thousand.
pub proof fn lemma_pow10_le(n: nat)
    requires
        n <= 4,
    ensures
        0 < pow10(n) <= 10000,
{
    reveal_with_fuel(pow10, 6);
    if n == 0 {
    } else if n == 1 {
    } else if n == 2 {
    } else if n == 3 {
    } else {
        assert(n == 4);
    }
}

/// True when every character is a digit (vacuously true of the empty string).
pub fn all_digits_exec(s: &str) -> (r: bool)
    ensures
        r == all_digits(s@),
{
    let len: usize = s.unicode_len();
    let mut i: usize = 0;
    while i < len
        invariant
            len == s@.len(),
            i <= len,
            forall|j: int| 0 <= j < i ==> is_dec_digit(s@[j]),
        decreases len - i,
    {
        let c = s.get_char(i);
        let u: u32 = c as u32;
        if u < 48 || u > 57 {
            proof {
                assert(!is_dec_digit(s@[i as int]));
            }
            return false;
        }
        i += 1;
    }
    true
}

/// The index of the last colon in `s`, or minus one when there is none.
pub open spec fn spec_last_colon(s: Seq<char>) -> int
    decreases s.len(),
{
    if s.len() == 0 {
        -1
    } else if s.last() == ':' {
        s.len() - 1
    } else {
        spec_last_colon(s.drop_last())
    }
}

/// The last-colon index stays within the string.
pub proof fn lemma_last_colon_bounds(s: Seq<char>)
    ensures
        -1 <= spec_last_colon(s) < s.len(),
    decreases s.len(),
{
    if s.len() > 0 && s.last() != ':' {
        lemma_last_colon_bounds(s.drop_last());
    }
}

/// Finds the position of the last colon, if any.
pub fn find_last_colon(s: &str) -> (r: Option<usize>)
    ensures
        r matches Some(k) ==> k as int == spec_last_colon(s@) && k < s@.len(),
        r is None ==> spec_last_colon(s@) == -1,
{
    let len: usize = s.unicode_len();
    proof {
        assert(s@.take(len as int) =~= s@);
    }
    let mut i: usize = len;
    while i > 0
        invariant
            i <= len,
            len == s@.len(),
            spec_last_colon(s@) == spec_last_colon(s@.take(i as int)),
        decreases i,
    {
        let c = s.get_char(i - 1);
        proof {
            assert(s@.take(i as int).drop_last() =~= s@.take(i - 1));
            assert(s@.take(i as int).last() == s@[i - 1]);
        }
        if c == ':' {
            return Some(i - 1);
        }
        i -= 1;
    }
    proof {
        assert(s@.take(0) =~= Seq::<char>::empty());
    }
    None
}

/// The decimal digit character for a value below ten.
pub open spec fn dec_digit(d: int) -> char {
    if d == 0 {
        '0'
    } else if d == 1 {
        '1'
    } else if d == 2 {
        '2'
    } else if d == 3 {
        '3'
    } else if d == 4 {
        '4'
    } else if d == 5 {
        '5'
    } else if d == 6 {
        '6'
    } else if d == 7 {
        '7'
    } else if d == 8 {
        '8'
    } else {
        '9'
    }
}

/// The base-ten rendering of a nonnegative number, without leading zeros
/// (a single zero for zero itself).
pub open spec fn spec_dec(n: int) -> Seq<char>
    decreases n,
{
    if n < 10 {
        seq![dec_digit(n)]
    } else {
        spec_dec(n / 10) + seq![dec_digit(n % 10)]
    }
}

/// One decimal digit as a string slice.
fn digit_str(d: u16) -> (r: &'static str)
    requires
        d < 10,
    ensures
        r@ == seq![dec_digit(d as int)],
{
    proof {
        reveal_strlit("0");
        reveal_strlit("1");
        reveal_strlit("2");
        reveal_strlit("3");
        reveal_strlit("4");
        reveal_strlit("5");
        reveal_strlit("6");
        reveal_strlit("7");
        reveal_strlit("8");
        reveal_strlit("9");
    }
    if d == 0 {
        proof {
            assert("0"@ =~= seq!['0']);
        }
        "0"
    } else if d == 1 {
        proof {
            assert("1"@ =~= seq!['1']);
        }
        "1"
    } else if d == 2 {
        proof {
            assert("2"@ =~= seq!['2']);
        }
        "2"
    } else if d == 3 {
        proof {
            assert("3"@ =~= seq!['3']);
        }
        "3"
    } else if d == 4 {
        proof {
            assert("4"@ =~= seq!['4']);
        }
        "4"
    } else if d == 5 {
        proof {
            assert("5"@ =~= seq!['5']);
        }
        "5"
    } else if d == 6 {
        proof {
            assert("6"@ =~= seq!['6']);
        }
        "6"
    } else if d == 7 {
        proof {
            assert("7"@ =~= seq!['7']);
        }
        "7"
    } else if d == 8 {
        proof {
            assert("8"@ =~= seq!['8']);
        }
        "8"
    } else {
        proof {
            assert("9"@ =~= seq!['9']);
        }
        "9"
    }
}

/// Renders a sixteen-bit number in decimal.
pub fn u16_to_dec(n: u16) -> (r: String)
    ensures
        r@ == spec_dec(n as int),
    decreases n,
{
    if n < 10 {
        String::from_str(digit_str(n))
    } else {
        let q: u16 = n / 10;
        let rem: u16 = n % 10;
        let mut s = u16_to_dec(q);
        s.append(digit_str(rem));
        s
    }
}

} // verus!

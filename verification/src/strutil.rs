use vstd::prelude::*;
use vstd::string::*;

verus! {

/// The decimal spelling of a number, most significant digit first.
pub open spec fn decimal_bytes(n: nat) -> Seq<u8>
    decreases n,
{
    if n < 10 {
        seq![(48 + n) as u8]
    } else {
        decimal_bytes(n / 10).push((48 + n % 10) as u8)
    }
}

/// Writes a number in decimal.
pub fn to_decimal_bytes(n: usize) -> (r: Vec<u8>)
    ensures
        r@ == decimal_bytes(n as nat),
    decreases n,
{
    if n < 10 {
        let mut v: Vec<u8> = Vec::new();
        v.push(48 + (n as u8));
        proof {
            assert(v@ =~= decimal_bytes(n as nat));
        }
        v
    } else {
        let mut v = to_decimal_bytes(n / 10);
        v.push(48 + ((n % 10) as u8));
        proof {
            assert(v@ =~= decimal_bytes(n as nat));
        }
        v
    }
}

/// Compares two byte vectors by content.
pub fn bytes_eq(a: &Vec<u8>, b: &Vec<u8>) -> (r: bool)
    ensures
        r == (a@ == b@),
{
    if a.len() != b.len() {
        return false;
    }
    let mut i: usize = 0;
    while i < a.len()
        invariant
            i <= a@.len(),
            a@.len() == b@.len(),
            forall|j: int| 0 <= j < i ==> a@[j] == b@[j],
        decreases a@.len() - i,
    {
        if a[i] != b[i] {
            return false;
        }
        i += 1;
    }
    proof {
        assert(a@ =~= b@);
    }
    true
}

/// What `str::to_lowercase` yields on the UTF-8 reading of these bytes;
/// bytes that are not UTF-8 come back unchanged.
pub uninterp spec fn lower_of(s: Seq<u8>) -> Seq<u8>;

/// What `str::to_uppercase` yields on the UTF-8 reading of these bytes;
/// bytes that are not UTF-8 come back unchanged.
pub uninterp spec fn upper_of(s: Seq<u8>) -> Seq<u8>;

/// How `String::from_utf8_lossy` reads these bytes.
pub uninterp spec fn utf8_lossy_of(s: Seq<u8>) -> Seq<char>;

/// Relies on str::to_lowercase: the result depends on the characters alone.
#[verifier::external_body]
pub fn lowercase_bytes(b: &Vec<u8>) -> (r: Vec<u8>)
    ensures
        r@ == lower_of(b@),
{
    match core::str::from_utf8(b.as_slice()) {
        Ok(s) => s.to_lowercase().into_bytes(),
        Err(_) => b.clone(),
    }
}

/// Relies on str::to_uppercase: the result depends on the characters alone.
#[verifier::external_body]
pub fn uppercase_bytes(b: &Vec<u8>) -> (r: Vec<u8>)
    ensures
        r@ == upper_of(b@),
{
    match core::str::from_utf8(b.as_slice()) {
        Ok(s) => s.to_uppercase().into_bytes(),
        Err(_) => b.clone(),
    }
}

/// Relies on String::from_utf8_lossy: the reading depends on the bytes alone.
#[verifier::external_body]
pub fn lossy_string(b: &Vec<u8>) -> (r: String)
    ensures
        r@ == utf8_lossy_of(b@),
{
    String::from_utf8_lossy(b.as_slice()).into_owned()
}

/// Whether a byte starts a character (it is no UTF-8 continuation byte).
pub open spec fn is_char_start(b: u8) -> bool {
    !(128 <= b < 192)
}

/// Whether a byte starts a character.
pub fn is_char_start_byte(b: u8) -> (r: bool)
    ensures
        r == is_char_start(b),
{
    !(b >= 128 && b < 192)
}

fn char_start(b: u8) -> (r: bool)
    ensures
        r == is_char_start(b),
{
    !(b >= 128 && b < 192)
}

/// How many characters the bytes from position `i` on spell, counting each
/// character start.
pub open spec fn char_count_from(s: Seq<u8>, i: int) -> int
    decreases s.len() - i,
{
    if i < 0 || i >= s.len() {
        0
    } else {
        (if is_char_start(s[i]) {
            1int
        } else {
            0int
        }) + char_count_from(s, i + 1)
    }
}

/// How many characters the bytes spell.
pub open spec fn char_count(s: Seq<u8>) -> int {
    char_count_from(s, 0)
}

/// Counts the characters in the bytes.
pub fn count_chars(v: &Vec<u8>) -> (r: usize)
    ensures
        r == char_count(v@),
{
    let mut count: usize = 0;
    let mut i: usize = 0;
    while i < v.len()
        invariant
            i <= v@.len(),
            count <= i,
            char_count(v@) == count + char_count_from(v@, i as int),
        decreases v@.len() - i,
    {
        if char_start(v[i]) {
            count += 1;
        }
        i += 1;
    }
    count
}

/// The longest prefix of the bytes with at most `max` of them that ends on
/// a character boundary.
pub open spec fn boundary_cut(s: Seq<u8>, max: int) -> Seq<u8>
    decreases max,
{
    if max < 0 {
        Seq::empty()
    } else if s.len() <= max {
        s
    } else if max == 0 {
        Seq::empty()
    } else if is_char_start(s[max]) {
        s.take(max)
    } else {
        boundary_cut(s, max - 1)
    }
}

/// The longest prefix of at most `max` bytes that ends on a character
/// boundary: any longer cut within the budget would split a character.
pub fn truncate_utf8(v: &Vec<u8>, max: usize) -> (r: Vec<u8>)
    ensures
        r@ == boundary_cut(v@, max as int),
        r@.len() <= max,
        r@ == v@.take(r@.len() as int),
        v@.len() <= max ==> r@ == v@,
        forall|j: int| r@.len() < j && j <= max && j < v@.len() ==> !is_char_start(#[trigger] v@[j]),
{
    if v.len() <= max {
        let r = crate::lexer::clone_bytes(v);
        proof {
            assert(r@ == v@.take(r@.len() as int));
        }
        return r;
    }
    let mut end: usize = max;
    while end > 0 && !char_start(v[end])
        invariant
            end <= max,
            max < v@.len(),
            forall|j: int| end < j && j <= max ==> !is_char_start(#[trigger] v@[j]),
            boundary_cut(v@, max as int) == boundary_cut(v@, end as int),
        decreases end,
    {
        end -= 1;
    }
    proof {
        if end > 0 {
            assert(boundary_cut(v@, end as int) == v@.take(end as int));
        } else {
            assert(boundary_cut(v@, 0) =~= Seq::<u8>::empty());
        }
    }
    let mut r: Vec<u8> = Vec::new();
    let mut i: usize = 0;
    while i < end
        invariant
            i <= end,
            end <= max,
            max < v@.len(),
            r@ =~= v@.take(i as int),
        decreases end - i,
    {
        r.push(v[i]);
        i += 1;
        proof {
            assert(r@ =~= v@.take(i as int));
        }
    }
    r
}

/// Writes a 64-bit number in decimal.
pub fn to_decimal_bytes_u64(n: u64) -> (r: Vec<u8>)
    ensures
        r@ == decimal_bytes(n as nat),
    decreases n,
{
    if n < 10 {
        let mut v: Vec<u8> = Vec::new();
        v.push(48 + (n as u8));
        proof {
            assert(v@ =~= decimal_bytes(n as nat));
        }
        v
    } else {
        let mut v = to_decimal_bytes_u64(n / 10);
        v.push(48 + ((n % 10) as u8));
        proof {
            assert(v@ =~= decimal_bytes(n as nat));
        }
        v
    }
}

/// Writes a number in decimal as text.
pub fn to_decimal_string(n: usize) -> (r: String)
    ensures
        r@ == crate::words::chars_of(decimal_bytes(n as nat)),
    decreases n,
{
    if n < 10 {
        let mut s = String::new();
        let d = digit_str((n as u8) + 48);
        s.append(d);
        proof {
            assert(s@ =~= crate::words::chars_of(decimal_bytes(n as nat)));
        }
        s
    } else {
        let mut s = to_decimal_string(n / 10);
        let d = digit_str(((n % 10) as u8) + 48);
        s.append(d);
        proof {
            assert(s@ =~= crate::words::chars_of(decimal_bytes(n as nat)));
        }
        s
    }
}

/// The one-character text of a digit byte.
fn digit_str(b: u8) -> (r: &'static str)
    requires
        48 <= b <= 57,
    ensures
        r@.len() == 1,
        r@[0] == b as char,
{
    let r: &'static str = if b == 48 {
        "0"
    } else if b == 49 {
        "1"
    } else if b == 50 {
        "2"
    } else if b == 51 {
        "3"
    } else if b == 52 {
        "4"
    } else if b == 53 {
        "5"
    } else if b == 54 {
        "6"
    } else if b == 55 {
        "7"
    } else if b == 56 {
        "8"
    } else {
        "9"
    };
    proof {
        reveal_strlit("0");
        reveal_strlit("1");
        reveal_strlit("2");
        reveal_strlit("3");
        reveal_strlit("4");
        reveal_strlit("5");
        reveal_strlit("6");
        reveal_strlit("7");
        reveal_strlit("8");
        reveal_strlit("9");
    }
    r
}

/// A copy of the byte range `[from, to)`.
pub fn copy_byte_range(v: &Vec<u8>, from: usize, to: usize) -> (r: Vec<u8>)
    requires
        from <= to <= v@.len(),
    ensures
        r@ == v@.subrange(from as int, to as int),
{
    let mut out: Vec<u8> = Vec::new();
    let mut i: usize = from;
    while i < to
        invariant
            from <= i <= to <= v@.len(),
            out@ =~= v@.subrange(from as int, i as int),
        decreases to - i,
    {
        out.push(v[i]);
        i += 1;
        proof {
            assert(out@ =~= v@.subrange(from as int, i as int));
        }
    }
    out
}

} // verus!

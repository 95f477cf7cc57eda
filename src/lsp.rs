//! Language server messages: the `Content-Length` framing of JSON-RPC on a
//! byte stream, and the language id of a file.
use vstd::prelude::*;
use crate::text::{decimal, decimal_chars, digit_char};

verus! {

/// The ASCII bytes of `s`.
pub open spec fn ascii(s: Seq<char>) -> Seq<u8> {
    s.map_values(|c: char| c as u8)
}

/// `Content-Length: `
pub open spec fn length_label() -> Seq<u8> {
    seq![67u8, 111, 110, 116, 101, 110, 116, 45, 76, 101, 110, 103, 116, 104, 58]
}

/// The header of a frame whose body has `n` bytes.
pub open spec fn frame_header(n: nat) -> Seq<u8> {
    length_label() + seq![32u8] + ascii(decimal(n)) + seq![13u8, 10, 13, 10]
}

/// A frame: the header, then the body.
pub open spec fn frame(body: Seq<u8>) -> Seq<u8> {
    frame_header(body.len()) + body
}

pub open spec fn is_space(b: u8) -> bool {
    b == 32 || b == 9 || b == 10 || b == 11 || b == 12 || b == 13
}

pub open spec fn trim_front(s: Seq<u8>) -> Seq<u8>
    decreases s.len(),
{
    if s.len() > 0 && is_space(s[0]) { trim_front(s.drop_first()) } else { s }
}

pub open spec fn trim_back(s: Seq<u8>) -> Seq<u8>
    decreases s.len(),
{
    if s.len() > 0 && is_space(s.last()) { trim_back(s.drop_last()) } else { s }
}

/// `s` without ASCII white space at either end.
pub open spec fn trim_bytes(s: Seq<u8>) -> Seq<u8> {
    trim_back(trim_front(s))
}

pub open spec fn is_digit(b: u8) -> bool {
    48 <= b <= 57
}

/// The number that the decimal digits `s` spell.
pub open spec fn digits_value(s: Seq<u8>) -> nat
    decreases s.len(),
{
    if s.len() == 0 { 0 } else { digits_value(s.drop_last()) * 10 + (s.last() - 48) as nat }
}

/// The length that a header line gives: the digits after the label, around
/// white space; an error where they are not a number.
pub open spec fn length_of_line(t: Seq<u8>) -> Result<nat, FrameError> {
    let v = trim_bytes(t.subrange(15, t.len() as int));
    if v.len() > 0 && (forall|i: int| 0 <= i < v.len() ==> is_digit(#[trigger] v[i])) && digits_value(v)
        <= usize::MAX {
        Ok(digits_value(v))
    } else {
        Err(FrameError::BadLength)
    }
}

/// Index of the first line feed of `s` at or after `pos`, if any.
pub open spec fn newline_at(s: Seq<u8>, pos: int) -> Option<int>
    decreases s.len() - pos,
{
    if pos < 0 || pos >= s.len() {
        None
    } else if s[pos] == 10 {
        Some(pos)
    } else {
        newline_at(s, pos + 1)
    }
}

/// Why a frame could not be read.
#[derive(Debug, Clone, Copy, PartialEq, Eq, Structural)]
pub enum FrameError {
    /// A `Content-Length` header whose value is not a number.
    BadLength,
}

/// Reading the headers of `buf` from `pos` with the length found so far:
/// lines up to a line feed, trimmed; an empty line ends the headers once a
/// length is known; a `Content-Length:` line gives the length; other lines
/// (a server's log output) are skipped. The result is the body and the
/// number of bytes the frame took, or none where `buf` holds no whole frame.
pub open spec fn decode_at(buf: Seq<u8>, pos: int, len: Option<nat>) -> Result<Option<(Seq<u8>, nat)>, FrameError>
    decreases buf.len() - pos,
{
    if pos < 0 || pos > buf.len() {
        Ok(None)
    } else {
        match newline_at(buf, pos) {
            None => Ok(None),
            Some(e) => if e < pos || e >= buf.len() {
                Ok(None)
            } else {
                let t = trim_bytes(buf.subrange(pos, e));
                if t.len() == 0 && len.is_some() {
                    let n = len.unwrap();
                    if e + 1 + n <= buf.len() {
                        Ok(Some((buf.subrange(e + 1, e + 1 + n), (e + 1 + n) as nat)))
                    } else {
                        Ok(None)
                    }
                } else if t.len() >= 15 && t.subrange(0, 15) == length_label() {
                    match length_of_line(t) {
                        Ok(n) => decode_at(buf, e + 1, Some(n)),
                        Err(x) => Err(x),
                    }
                } else {
                    decode_at(buf, e + 1, len)
                }
            },
        }
    }
}

/// The first frame of `buf`.
pub open spec fn decode(buf: Seq<u8>) -> Result<Option<(Seq<u8>, nat)>, FrameError> {
    decode_at(buf, 0, None)
}

fn is_space_exec(b: u8) -> (r: bool)
    ensures
        r == is_space(b),
{
    b == 32 || b == 9 || b == 10 || b == 11 || b == 12 || b == 13
}

proof fn lemma_trim_front_step(s: Seq<u8>, i: int)
    requires
        0 <= i < s.len(),
        is_space(s[i]),
    ensures
        trim_front(s.subrange(i, s.len() as int)) == trim_front(s.subrange(i + 1, s.len() as int)),
{
    assert(s.subrange(i, s.len() as int).drop_first() =~= s.subrange(i + 1, s.len() as int));
}

proof fn lemma_trim_back_step(s: Seq<u8>, k: int)
    requires
        0 < k <= s.len(),
        is_space(s[k - 1]),
    ensures
        trim_back(s.subrange(0, k)) == trim_back(s.subrange(0, k - 1)),
{
    assert(s.subrange(0, k).drop_last() =~= s.subrange(0, k - 1));
}

/// Bounds of `s[lo..hi]` without white space at either end.
fn trim_range(s: &[u8], lo: usize, hi: usize) -> (r: (usize, usize))
    requires
        lo <= hi <= s@.len(),
    ensures
        lo <= r.0 <= r.1 <= hi,
        s@.subrange(r.0 as int, r.1 as int) == trim_bytes(s@.subrange(lo as int, hi as int)),
{
    let ghost w = s@.subrange(lo as int, hi as int);
    let mut a: usize = lo;
    assert(w.subrange(0, w.len() as int) =~= w);
    while a < hi && is_space_exec(s[a])
        invariant
            lo <= a <= hi <= s@.len(),
            w == s@.subrange(lo as int, hi as int),
            trim_front(w) == trim_front(w.subrange(a - lo, w.len() as int)),
        decreases hi - a,
    {
        proof {
            lemma_trim_front_step(w, a - lo);
        }
        a += 1;
    }
    let ghost t = w.subrange(a - lo, w.len() as int);
    assert(trim_front(w) == t);
    let mut b: usize = hi;
    assert(t.subrange(0, t.len() as int) =~= t);
    while b > a && is_space_exec(s[b - 1])
        invariant
            lo <= a <= b <= hi <= s@.len(),
            w == s@.subrange(lo as int, hi as int),
            t == w.subrange(a - lo, w.len() as int),
            trim_back(t) == trim_back(t.subrange(0, b - a)),
        decreases b,
    {
        proof {
            lemma_trim_back_step(t, b - a);
        }
        b -= 1;
    }
    assert(t.subrange(0, b - a) =~= s@.subrange(a as int, b as int));
    (a, b)
}

proof fn lemma_newline_at(s: Seq<u8>, pos: int, e: int)
    requires
        0 <= pos <= e,
        forall|j: int| pos <= j < e ==> s[j] != 10,
        e < s.len() ==> s[e] == 10,
        e <= s.len(),
    ensures
        newline_at(s, pos) == (if e < s.len() { Some(e) } else { None::<int> }),
    decreases e - pos,
{
    if pos < e {
        lemma_newline_at(s, pos + 1, e);
    }
}

/// Index of the first line feed at or after `pos`, or `s.len()`.
fn find_newline(s: &[u8], pos: usize) -> (r: usize)
    requires
        pos <= s@.len(),
    ensures
        pos <= r <= s@.len(),
        newline_at(s@, pos as int) == (if r < s@.len() { Some(r as int) } else { None::<int> }),
{
    let mut i = pos;
    while i < s.len() && s[i] != 10
        invariant
            pos <= i <= s@.len(),
            forall|j: int| pos <= j < i ==> s@[j] != 10,
        decreases s@.len() - i,
    {
        i += 1;
    }
    proof {
        lemma_newline_at(s@, pos as int, i as int);
    }
    i
}

/// The length that a header line gives.
fn parse_length(s: &[u8], lo: usize, hi: usize) -> (r: Result<usize, FrameError>)
    requires
        lo + 15 <= hi <= s@.len(),
    ensures
        match r {
            Ok(n) => length_of_line(s@.subrange(lo as int, hi as int)) == Ok::<nat, FrameError>(n as nat),
            Err(x) => length_of_line(s@.subrange(lo as int, hi as int)) == Err::<nat, FrameError>(x),
        },
{
    let ghost t = s@.subrange(lo as int, hi as int);
    let (a, b) = trim_range(s, lo + 15, hi);
    assert(t.subrange(15, t.len() as int) =~= s@.subrange(lo + 15, hi as int));
    let ghost v = s@.subrange(a as int, b as int);
    if a == b {
        return Err(FrameError::BadLength);
    }
    let mut value: u128 = 0;
    let mut i = a;
    while i < b
        invariant
            a <= i <= b <= s@.len(),
            v == s@.subrange(a as int, b as int),
            v == trim_bytes(t.subrange(15, t.len() as int)),
            t == s@.subrange(lo as int, hi as int),
            forall|j: int| a <= j < i ==> is_digit(s@[j]),
            value == (if digits_value(s@.subrange(a as int, i as int)) <= usize::MAX {
                digits_value(s@.subrange(a as int, i as int))
            } else {
                usize::MAX as nat + 1
            }),
        decreases b - i,
    {
        let c = s[i];
        if c < 48 || c > 57 {
            assert(!is_digit(v[i - a]));
            return Err(FrameError::BadLength);
        }
        let ghost prev = digits_value(s@.subrange(a as int, i as int));
        assert(s@.subrange(a as int, i + 1).drop_last() =~= s@.subrange(a as int, i as int));
        assert(digits_value(s@.subrange(a as int, i + 1)) == prev * 10 + (c - 48) as nat);
        if value <= usize::MAX as u128 {
            let next = value * 10 + (c - 48) as u128;
            value = if next <= usize::MAX as u128 { next } else { usize::MAX as u128 + 1 };
        } else {
            assert(prev * 10 + (c - 48) as nat >= prev) by (nonlinear_arith);
        }
        i += 1;
    }
    assert(v =~= s@.subrange(a as int, i as int));
    proof {
        assert forall|j: int| 0 <= j < v.len() implies is_digit(#[trigger] v[j]) by {
            assert(v[j] == s@[a + j]);
        }
    }
    if value > usize::MAX as u128 {
        return Err(FrameError::BadLength);
    }
    Ok(value as usize)
}

/// Frames a message body: its `Content-Length` header, a blank line, then
/// the body.
pub fn encode_frame(body: &[u8]) -> (r: Vec<u8>)
    ensures
        r@ == frame(body@),
{
    let mut out: Vec<u8> = vec![67u8, 111, 110, 116, 101, 110, 116, 45, 76, 101, 110, 103, 116, 104, 58, 32];
    let digits = decimal_chars(body.len());
    let mut i: usize = 0;
    assert(out@ =~= length_label() + seq![32u8]);
    while i < digits.len()
        invariant
            i <= digits@.len(),
            digits@ == decimal(body@.len()),
            out@ == length_label() + seq![32u8] + ascii(digits@.subrange(0, i as int)),
        decreases digits@.len() - i,
    {
        out.push(digits[i] as u8);
        i += 1;
        assert(ascii(digits@.subrange(0, i as int)) =~= ascii(digits@.subrange(0, i - 1)).push(digits@[i - 1] as u8));
    }
    assert(digits@.subrange(0, i as int) =~= digits@);
    out.push(13);
    out.push(10);
    out.push(13);
    out.push(10);
    let mut j: usize = 0;
    let ghost head = out@;
    assert(head =~= frame_header(body@.len()));
    while j < body.len()
        invariant
            j <= body@.len(),
            out@ == head + body@.subrange(0, j as int),
        decreases body@.len() - j,
    {
        out.push(body[j]);
        j += 1;
        assert(out@ =~= head + body@.subrange(0, j as int));
    }
    assert(body@.subrange(0, j as int) =~= body@);
    out
}

/// Reads the first frame of `buf`: its body and the number of bytes it
/// took; none where `buf` does not hold a whole frame yet.
pub fn decode_frame(buf: &[u8]) -> (r: Result<Option<(Vec<u8>, usize)>, FrameError>)
    ensures
        match r {
            Ok(Some((body, used))) => decode(buf@) == Ok::<Option<(Seq<u8>, nat)>, FrameError>(Some((body@, used as nat))),
            Ok(None) => decode(buf@) == Ok::<Option<(Seq<u8>, nat)>, FrameError>(None),
            Err(x) => decode(buf@) == Err::<Option<(Seq<u8>, nat)>, FrameError>(x),
        },
{
    let mut pos: usize = 0;
    let mut len: Option<usize> = None;
    while pos <= buf.len()
        invariant
            pos <= buf@.len(),
            decode(buf@) == decode_at(buf@, pos as int, match len {
                Some(n) => Some(n as nat),
                None => None,
            }),
        decreases buf@.len() + 1 - pos,
    {
        let e = find_newline(buf, pos);
        if e == buf.len() {
            return Ok(None);
        }
        let (a, b) = trim_range(buf, pos, e);
        let ghost t = buf@.subrange(pos as int, e as int);
        if a == b && len.is_some() {
            let n = len.unwrap();
            if n <= buf.len() - (e + 1) {
                let mut body: Vec<u8> = Vec::new();
                let mut k = e + 1;
                let end = e + 1 + n;
                while k < end
                    invariant
                        end == e + 1 + n,
                        e + 1 <= k <= e + 1 + n <= buf@.len(),
                        body@ == buf@.subrange(e + 1, k as int),
                    decreases end - k,
                {
                    body.push(buf[k]);
                    k += 1;
                    assert(body@ =~= buf@.subrange(e + 1, k as int));
                }
                return Ok(Some((body, e + 1 + n)));
            }
            return Ok(None);
        }
        let is_len = b - a >= 15 && buf[a] == 67 && buf[a + 1] == 111 && buf[a + 2] == 110 && buf[a + 3] == 116
            && buf[a + 4] == 101 && buf[a + 5] == 110 && buf[a + 6] == 116 && buf[a + 7] == 45 && buf[a + 8] == 76
            && buf[a + 9] == 101 && buf[a + 10] == 110 && buf[a + 11] == 103 && buf[a + 12] == 116 && buf[a + 13]
            == 104 && buf[a + 14] == 58;
        let ghost tt = buf@.subrange(a as int, b as int);
        proof {
            if b - a >= 15 {
                if is_len {
                    assert(tt.subrange(0, 15) =~= length_label());
                } else {
                    assert(tt.subrange(0, 15) != length_label()) by {
                        if tt.subrange(0, 15) == length_label() {
                            assert(tt.subrange(0, 15)[0] == 67u8);
                            assert(tt.subrange(0, 15)[14] == 58u8);
                        }
                    }
                }
            }
        }
        if is_len {
            match parse_length(buf, a, b) {
                Ok(n) => {
                    len = Some(n);
                },
                Err(x) => {
                    return Err(x);
                },
            }
        }
        pos = e + 1;
    }
    Ok(None)
}


proof fn lemma_digit_byte(d: nat)
    requires
        d < 10,
    ensures
        is_digit(digit_char(d) as u8),
        (digit_char(d) as u8) - 48 == d,
{
}

proof fn lemma_decimal_bytes(n: nat)
    ensures
        decimal(n).len() >= 1,
        forall|i: int| 0 <= i < decimal(n).len() ==> is_digit(#[trigger] ascii(decimal(n))[i]),
        digits_value(ascii(decimal(n))) == n,
    decreases n,
{
    if n < 10 {
        lemma_digit_byte(n);
        assert(ascii(decimal(n)) =~= seq![digit_char(n) as u8]);
        assert(ascii(decimal(n)).drop_last() =~= Seq::<u8>::empty());
        assert(digits_value(ascii(decimal(n))) == digits_value(Seq::<u8>::empty()) * 10 + ((digit_char(n) as u8) - 48) as nat);
    } else {
        lemma_decimal_bytes(n / 10);
        lemma_digit_byte(n % 10);
        let a = ascii(decimal(n / 10));
        assert(ascii(decimal(n)) =~= a.push(digit_char(n % 10) as u8));
        assert(ascii(decimal(n)).drop_last() =~= a);
        assert(ascii(decimal(n)).last() == digit_char(n % 10) as u8);
        assert(digits_value(ascii(decimal(n))) == digits_value(a) * 10 + ((digit_char(n % 10) as u8) - 48) as nat);
        assert(n == (n / 10) * 10 + n % 10);
        assert forall|i: int| 0 <= i < decimal(n).len() implies is_digit(#[trigger] ascii(decimal(n))[i]) by {
            if i < a.len() {
                assert(ascii(decimal(n))[i] == a[i]);
            }
        }
    }
}

proof fn lemma_trim_digits(pre: Seq<u8>, digits: Seq<u8>, post: Seq<u8>)
    requires
        forall|i: int| 0 <= i < pre.len() ==> is_space(#[trigger] pre[i]),
        forall|i: int| 0 <= i < post.len() ==> is_space(#[trigger] post[i]),
        digits.len() >= 1,
        !is_space(digits[0]),
        !is_space(digits.last()),
    ensures
        trim_bytes(pre + digits + post) == digits,
    decreases pre.len() + post.len(),
{
    if pre.len() > 0 {
        assert((pre + digits + post).drop_first() =~= pre.drop_first() + digits + post);
        lemma_trim_digits(pre.drop_first(), digits, post);
        assert(trim_front(pre + digits + post) == trim_front(pre.drop_first() + digits + post));
    } else if post.len() > 0 {
        assert(pre + digits + post =~= digits + post);
        lemma_trim_back_all(digits, post);
        assert(trim_front(digits + post) == digits + post);
    } else {
        assert(pre + digits + post =~= digits);
        assert(trim_front(digits) == digits);
    }
}

proof fn lemma_trim_back_all(digits: Seq<u8>, post: Seq<u8>)
    requires
        forall|i: int| 0 <= i < post.len() ==> is_space(#[trigger] post[i]),
        digits.len() >= 1,
        !is_space(digits.last()),
    ensures
        trim_back(digits + post) == digits,
    decreases post.len(),
{
    if post.len() > 0 {
        assert((digits + post).drop_last() =~= digits + post.drop_last());
        assert((digits + post).last() == post.last());
        lemma_trim_back_all(digits, post.drop_last());
    } else {
        assert(digits + post =~= digits);
    }
}

/// Reading a frame back gives its body and its length, whatever bytes
/// follow it: framing is undone exactly.
pub proof fn frame_round_trip(body: Seq<u8>, rest: Seq<u8>)
    requires
        body.len() <= usize::MAX,
    ensures
        decode(frame(body) + rest) == Ok::<Option<(Seq<u8>, nat)>, FrameError>(
            Some((body, frame(body).len())),
        ),
{
    let n = body.len();
    let d = ascii(decimal(n));
    lemma_decimal_bytes(n);
    let buf = frame(body) + rest;
    let l = length_label();
    let h = frame_header(n);
    let dl = d.len() as int;
    assert(h.len() == 20 + dl);
    assert(buf.len() == 20 + dl + n + rest.len());
    // the first line ends at the line feed after the length
    let e1 = 17 + dl;
    assert forall|j: int| 0 <= j < e1 implies buf[j] != 10 by {
        assert(buf[j] == h[j]);
        if j >= 16 && j < 16 + dl {
            assert(h[j] == d[j - 16]);
            assert(is_digit(d[j - 16]));
        }
    }
    assert(buf[e1] == 10);
    lemma_newline_at(buf, 0, e1);
    let line1 = buf.subrange(0, e1);
    let t1 = l + seq![32u8] + d;
    assert(line1 =~= Seq::<u8>::empty() + t1 + seq![13u8]);
    assert(!is_space(t1[0]));
    assert(t1.last() == d.last());
    assert(is_digit(d[dl - 1]));
    lemma_trim_digits(Seq::<u8>::empty(), t1, seq![13u8]);
    assert(trim_bytes(line1) == t1);
    assert(t1.subrange(0, 15) =~= l);
    assert(t1.subrange(15, t1.len() as int) =~= seq![32u8] + d + Seq::<u8>::empty());
    assert(is_digit(d[0]));
    lemma_trim_digits(seq![32u8], d, Seq::<u8>::empty());
    assert(length_of_line(t1) == Ok::<nat, FrameError>(n));
    // the second line is the blank one
    let e2 = e1 + 2;
    assert(buf[e1 + 1] == 13);
    assert(buf[e2] == 10);
    lemma_newline_at(buf, e1 + 1, e2);
    let line2 = buf.subrange(e1 + 1, e2);
    assert(line2 =~= seq![13u8]);
    assert(trim_front(line2) == trim_front(Seq::<u8>::empty())) by {
        assert(line2.drop_first() =~= Seq::<u8>::empty());
    }
    assert(trim_bytes(line2).len() == 0);
    assert(buf.subrange(e2 + 1, e2 + 1 + n) =~= body);
    assert(decode_at(buf, e1 + 1, Some(n)) == Ok::<Option<(Seq<u8>, nat)>, FrameError>(
        Some((body, (e2 + 1 + n) as nat)),
    ));
    assert(decode_at(buf, 0, None) == decode_at(buf, e1 + 1, Some(n)));
}

/// The language id of a file, by its extension.
pub fn language_id_for_path(path: &str) -> (r: &'static str)
    ensures
        r@ == language_id(extension_of(path@)),
{
    let c = crate::text::chars_of(path);
    let ext = extension_chars(c.as_slice());
    let e = crate::text::string_of(ext.as_slice());
    let s = e.as_str();
    if crate::text::str_eq(s, "rs") {
        "rust"
    } else if crate::text::str_eq(s, "ts") {
        "typescript"
    } else if crate::text::str_eq(s, "tsx") {
        "typescriptreact"
    } else if crate::text::str_eq(s, "js") {
        "javascript"
    } else if crate::text::str_eq(s, "jsx") {
        "javascriptreact"
    } else if crate::text::str_eq(s, "py") {
        "python"
    } else if crate::text::str_eq(s, "go") {
        "go"
    } else if crate::text::str_eq(s, "java") {
        "java"
    } else if crate::text::str_eq(s, "c") {
        "c"
    } else if crate::text::str_eq(s, "cc") || crate::text::str_eq(s, "cpp") || crate::text::str_eq(s, "cxx")
        || crate::text::str_eq(s, "h") || crate::text::str_eq(s, "hpp") {
        "cpp"
    } else if crate::text::str_eq(s, "json") {
        "json"
    } else if crate::text::str_eq(s, "toml") {
        "toml"
    } else if crate::text::str_eq(s, "md") {
        "markdown"
    } else if crate::text::str_eq(s, "yml") || crate::text::str_eq(s, "yaml") {
        "yaml"
    } else {
        "plaintext"
    }
}

/// The language id that an extension stands for.
pub open spec fn language_id(e: Seq<char>) -> Seq<char> {
    if e == "rs"@ {
        "rust"@
    } else if e == "ts"@ {
        "typescript"@
    } else if e == "tsx"@ {
        "typescriptreact"@
    } else if e == "js"@ {
        "javascript"@
    } else if e == "jsx"@ {
        "javascriptreact"@
    } else if e == "py"@ {
        "python"@
    } else if e == "go"@ {
        "go"@
    } else if e == "java"@ {
        "java"@
    } else if e == "c"@ {
        "c"@
    } else if e == "cc"@ || e == "cpp"@ || e == "cxx"@ || e == "h"@ || e == "hpp"@ {
        "cpp"@
    } else if e == "json"@ {
        "json"@
    } else if e == "toml"@ {
        "toml"@
    } else if e == "md"@ {
        "markdown"@
    } else if e == "yml"@ || e == "yaml"@ {
        "yaml"@
    } else {
        "plaintext"@
    }
}

/// Index just after the last `c` in `s[..end]`, or 0.
pub open spec fn after_last(s: Seq<char>, c: char, end: int) -> int
    decreases end,
{
    if end <= 0 {
        0
    } else if s[end - 1] == c {
        end
    } else {
        after_last(s, c, end - 1)
    }
}

/// The extension of a path's file name: after its last dot, where that dot
/// is not the name's first character; empty where there is none.
pub open spec fn extension_of(p: Seq<char>) -> Seq<char> {
    let start = after_last(p, '/', p.len() as int);
    let name = p.subrange(start, p.len() as int);
    let d = after_last(name, '.', name.len() as int);
    if d > 1 { name.subrange(d, name.len() as int) } else { Seq::empty() }
}

fn after_last_exec(s: &[char], c: char, end: usize) -> (r: usize)
    requires
        end <= s@.len(),
    ensures
        r == after_last(s@, c, end as int),
        r <= end,
{
    let mut e = end;
    while e > 0 && s[e - 1] != c
        invariant
            e <= end <= s@.len(),
            after_last(s@, c, end as int) == after_last(s@, c, e as int),
        decreases e,
    {
        e -= 1;
    }
    e
}

fn extension_chars(p: &[char]) -> (r: Vec<char>)
    ensures
        r@ == extension_of(p@),
{
    let start = after_last_exec(p, '/', p.len());
    let name = crate::text::slice_vec(p, start, p.len());
    let d = after_last_exec(name.as_slice(), '.', name.len());
    if d > 1 {
        crate::text::slice_vec(name.as_slice(), d, name.len())
    } else {
        Vec::new()
    }
}

} // verus!

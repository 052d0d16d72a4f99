//! The DS18B20 one-wire temperature probe, as the Linux kernel exposes it.
use vstd::prelude::*;

verus! {

/// Whitespace as `char::is_whitespace` knows it (the Unicode White_Space
/// property); it separates the words of the kernel's report.
pub open spec fn is_space(c: char) -> bool {
    ||| '\u{9}' <= c <= '\u{d}'
    ||| c == ' '
    ||| c == '\u{85}'
    ||| c == '\u{a0}'
    ||| c == '\u{1680}'
    ||| '\u{2000}' <= c <= '\u{200a}'
    ||| c == '\u{2028}'
    ||| c == '\u{2029}'
    ||| c == '\u{202f}'
    ||| c == '\u{205f}'
    ||| c == '\u{3000}'
}

/// Whether `w` holds `t=` somewhere.
pub open spec fn has_marker(w: Seq<char>) -> bool {
    exists|k: int| 0 <= k < w.len() - 1 && w[k] == 't' && #[trigger] w[k + 1] == '='
}

/// The first word of `s` that holds `t=`, scanning from `i` in a word that
/// began at `start`.
pub open spec fn marked_word_from(s: Seq<char>, start: int, i: int) -> Option<Seq<char>>
    decreases s.len() - i,
{
    if i < 0 || start < 0 || start > i || i > s.len() {
        None
    } else if i == s.len() || is_space(s[i]) {
        let w = s.subrange(start, i);
        if has_marker(w) {
            Some(w)
        } else if i == s.len() {
            None
        } else {
            marked_word_from(s, i + 1, i + 1)
        }
    } else {
        marked_word_from(s, start, i + 1)
    }
}

/// `w` without its leading repetitions of `t=`.
pub open spec fn strip_markers(w: Seq<char>) -> Seq<char>
    decreases w.len(),
{
    if w.len() >= 2 && w[0] == 't' && w[1] == '=' {
        strip_markers(w.subrange(2, w.len() as int))
    } else {
        w
    }
}

pub open spec fn is_digit(c: char) -> bool {
    '0' <= c <= '9'
}

/// The value of a string of decimal digits.
pub open spec fn digits_value(w: Seq<char>) -> int
    decreases w.len(),
{
    if w.len() == 0 {
        0
    } else {
        10 * digits_value(w.drop_last()) + (w.last() as int - '0' as int)
    }
}

pub open spec fn all_digits(w: Seq<char>) -> bool {
    forall|k: int| 0 <= k < w.len() ==> is_digit(#[trigger] w[k])
}

/// `w` without a leading sign.
pub open spec fn unsigned_part(w: Seq<char>) -> Seq<char> {
    if w.len() > 0 && (w[0] == '-' || w[0] == '+') {
        w.drop_first()
    } else {
        w
    }
}

/// The integer that `w` writes: an optional sign and at least one decimal
/// digit, in the range of `i32`.
pub open spec fn parse_i32(w: Seq<char>) -> Option<i32> {
    let body = unsigned_part(w);
    let v = if w.len() > 0 && w[0] == '-' {
        -digits_value(body)
    } else {
        digits_value(body)
    };
    if body.len() > 0 && all_digits(body) && i32::MIN <= v <= i32::MAX {
        Some(v as i32)
    } else {
        None
    }
}

/// The reading in the kernel's report `s`, in thousandths of a degree
/// Celsius: the first word that holds `t=`, stripped of its leading `t=`,
/// read as an integer.
pub open spec fn reading_of(s: Seq<char>) -> Option<i32> {
    match marked_word_from(s, 0, 0) {
        Some(w) => parse_i32(strip_markers(w)),
        None => None,
    }
}

proof fn lemma_digits_grow(w: Seq<char>, n: int)
    requires
        0 <= n <= w.len(),
        forall|k: int| 0 <= k < w.len() ==> is_digit(#[trigger] w[k]),
    ensures
        digits_value(w.subrange(0, n)) <= digits_value(w),
        0 <= digits_value(w.subrange(0, n)),
    decreases w.len() - n,
{
    if n < w.len() {
        lemma_digits_grow(w, n + 1);
        assert(w.subrange(0, n + 1).drop_last() =~= w.subrange(0, n));
    } else {
        assert(w.subrange(0, n) =~= w);
    }
    lemma_digits_nonneg(w.subrange(0, n));
}

proof fn lemma_digits_nonneg(w: Seq<char>)
    requires
        forall|k: int| 0 <= k < w.len() ==> is_digit(#[trigger] w[k]),
    ensures
        0 <= digits_value(w),
    decreases w.len(),
{
    if w.len() > 0 {
        lemma_digits_nonneg(w.drop_last());
    }
}

/// Reads an optional sign and decimal digits from `w`, as `str::parse`
/// does for `i32`.
pub fn parse_integer(w: &Vec<char>) -> (r: Option<i32>)
    ensures
        r == parse_i32(w@),
{
    let n = w.len();
    let mut i: usize = 0;
    let negative = n > 0 && w[0] == '-';
    if n > 0 && (w[0] == '-' || w[0] == '+') {
        i = 1;
    }
    let ghost first = i as int;
    let ghost body = w@.subrange(first, n as int);
    assert(body =~= unsigned_part(w@));
    if i == n {
        return None;
    }
    let mut v: i64 = 0;
    while i < n
        invariant
            0 <= first <= 1,
            first <= i <= n,
            n == w@.len(),
            body == w@.subrange(first, n as int),
            body == unsigned_part(w@),
            forall|k: int| first <= k < i ==> is_digit(#[trigger] w@[k]),
            v == digits_value(w@.subrange(first, i as int)),
            0 <= v <= 0x8000_0000,
        decreases n - i,
    {
        let c = w[i];
        if !('0' <= c && c <= '9') {
            assert(body[i - first] == w@[i as int]);
            assert(!is_digit(body[i - first]));
            assert(0 <= i - first < body.len());
            assert(!all_digits(body));
            return None;
        }
        assert(w@.subrange(first, i + 1).drop_last() =~= w@.subrange(first, i as int));
        let next: i64 = v * 10 + (c as u32 - '0' as u32) as i64;
        assert(next == digits_value(w@.subrange(first, i + 1)));
        if next > 0x8000_0000 {
            proof {
                if all_digits(body) {
                    assert(body.subrange(0, i + 1 - first) =~= w@.subrange(first, i + 1));
                    lemma_digits_grow(body, i + 1 - first);
                    assert(digits_value(body) > 0x8000_0000);
                }
            }
            return None;
        }
        v = next;
        i = i + 1;
    }
    assert(w@.subrange(first, n as int) =~= body);
    if negative {
        Some((-v) as i32)
    } else if v <= 0x7fff_ffff {
        Some(v as i32)
    } else {
        None
    }
}

/// The characters `v[from..to]`.
fn slice_chars(v: &Vec<char>, from: usize, to: usize) -> (r: Vec<char>)
    requires
        from <= to <= v@.len(),
    ensures
        r@ == v@.subrange(from as int, to as int),
{
    let mut r: Vec<char> = Vec::new();
    let mut i = from;
    while i < to
        invariant
            from <= i <= to,
            to <= v@.len(),
            r@ == v@.subrange(from as int, i as int),
        decreases to - i,
    {
        r.push(v[i]);
        i = i + 1;
        assert(r@ =~= v@.subrange(from as int, i as int));
    }
    r
}

fn holds_marker(w: &Vec<char>) -> (r: bool)
    ensures
        r == has_marker(w@),
{
    let mut k: usize = 0;
    while k < w.len() && k + 1 < w.len()
        invariant
            k <= w@.len(),
            forall|j: int| 0 <= j < k && j < w@.len() - 1 ==> !(w@[j] == 't' && #[trigger] w@[j
                + 1] == '='),
        decreases w.len() - k,
    {
        if w[k] == 't' && w[k + 1] == '=' {
            return true;
        }
        k = k + 1;
    }
    false
}

fn without_markers(w: &Vec<char>) -> (r: Vec<char>)
    ensures
        r@ == strip_markers(w@),
{
    let n = w.len();
    let mut p: usize = 0;
    assert(w@.subrange(0, n as int) =~= w@);
    while p < n && p + 1 < n && w[p] == 't' && w[p + 1] == '='
        invariant
            p <= n,
            n == w@.len(),
            strip_markers(w@) == strip_markers(w@.subrange(p as int, n as int)),
        decreases n - p,
    {
        assert(w@.subrange(p as int, n as int).subrange(2, n - p) =~= w@.subrange(p + 2, n as int));
        p = p + 2;
    }
    slice_chars(w, p, n)
}

/// The characters of `text`.
fn chars_of(text: &str) -> (r: Vec<char>)
    ensures
        r@ == text@,
{
    let n = text.unicode_len();
    let mut r: Vec<char> = Vec::new();
    let mut i: usize = 0;
    while i < n
        invariant
            i <= n,
            n == text@.len(),
            r@ == text@.subrange(0, i as int),
        decreases n - i,
    {
        r.push(text.get_char(i));
        i = i + 1;
        assert(r@ =~= text@.subrange(0, i as int));
    }
    assert(r@ =~= text@);
    r
}

/// The reading in the kernel's report `text`, in thousandths of a degree
/// Celsius; `None` where the report holds none.
pub fn parse_reading(text: &str) -> (r: Option<i32>)
    ensures
        r == reading_of(text@),
{
    let s = chars_of(text);
    let n = s.len();
    let mut start: usize = 0;
    let mut i: usize = 0;
    while i <= n
        invariant
            start <= i,
            n == s@.len(),
            s@ == text@,
            i <= n + 1,
            marked_word_from(s@, 0, 0) == marked_word_from(s@, start as int, i as int),
            i == n + 1 ==> marked_word_from(s@, 0, 0) is None,
        decreases n + 1 - i,
    {
        if i == n || is_space_char(s[i]) {
            let w = slice_chars(&s, start, i);
            if holds_marker(&w) {
                let digits = without_markers(&w);
                return parse_integer(&digits);
            }
            if i == n {
                return None;
            }
            start = i + 1;
        }
        i = i + 1;
    }
    None
}

fn is_space_char(c: char) -> (r: bool)
    ensures
        r == is_space(c),
{
    ('\u{9}' <= c && c <= '\u{d}') || c == ' ' || c == '\u{85}' || c == '\u{a0}' || c
        == '\u{1680}' || ('\u{2000}' <= c && c <= '\u{200a}') || c == '\u{2028}' || c
        == '\u{2029}' || c == '\u{202f}' || c == '\u{205f}' || c == '\u{3000}'
}

/// A DS18B20 probe, named as in `/sys/bus/w1/devices`.
pub struct DS18B20 {
    id: String,
}

impl DS18B20 {
    pub closed spec fn id(&self) -> Seq<char> {
        self.id@
    }

    pub fn new(id: String) -> (r: DS18B20)
        ensures
            r.id() == id@,
    {
        DS18B20 { id }
    }

    /// The file in which the kernel reports the probe's readings.
    pub fn device_file(&self) -> (r: String)
        ensures
            r@ == "/sys/bus/w1/devices/"@ + self.id() + "/w1_slave"@,
    {
        let mut r = String::from_str("/sys/bus/w1/devices/");
        r.append(self.id.as_str());
        r.append("/w1_slave");
        r
    }
}

} // verus!

//! What a client asks the scanner to do, how that becomes a command line,
//! and which requests the scanner accepts.

use vstd::prelude::*;
use crate::number::{Number, NumberView, is_digit_char};
use crate::text::decimal;

pub mod command;
pub mod request;

verus! {

/// A request to scan, as the client sends it.
#[derive(Debug, PartialEq, Eq)]
pub struct ScanRequest {
    pub params: ScanParams,
}

/// The settings of one scan. Lengths on the glass are in millimetres, each
/// held as the exact number the client sent.
#[derive(Debug, PartialEq, Eq)]
pub struct ScanParams {
    pub device_id: String,
    pub resolution: u32,
    pub mode: Option<String>,
    pub format: Option<String>,
    pub source: Option<String>,
    pub top: Option<Number>,
    pub left: Option<Number>,
    pub width: Option<Number>,
    pub height: Option<Number>,
    pub brightness: Option<i32>,
    pub contrast: Option<i32>,
    pub gamma_correction: Option<String>,
    pub color_correction: Option<String>,
    pub color_space: Option<String>,
    pub depth: Option<String>,
    pub dynamic_lineart: Option<bool>,
    pub is_preview: Option<bool>,
}

/// The model of [`ScanParams`].
pub struct ScanParamsView {
    pub device_id: Seq<char>,
    pub resolution: u32,
    pub mode: Option<Seq<char>>,
    pub format: Option<Seq<char>>,
    pub source: Option<Seq<char>>,
    pub top: Option<NumberView>,
    pub left: Option<NumberView>,
    pub width: Option<NumberView>,
    pub height: Option<NumberView>,
    pub brightness: Option<i32>,
    pub contrast: Option<i32>,
    pub gamma_correction: Option<Seq<char>>,
    pub color_correction: Option<Seq<char>>,
    pub color_space: Option<Seq<char>>,
    pub depth: Option<Seq<char>>,
    pub dynamic_lineart: Option<bool>,
    pub is_preview: Option<bool>,
}

/// The model of an optional text.
pub open spec fn opt_text(o: Option<String>) -> Option<Seq<char>> {
    match o {
        Some(s) => Some(s@),
        None => None,
    }
}

/// The model of an optional number.
pub open spec fn opt_number(o: Option<Number>) -> Option<NumberView> {
    match o {
        Some(n) => Some(n@),
        None => None,
    }
}

/// An optional number is absent or well formed.
pub open spec fn opt_number_well_formed(o: Option<Number>) -> bool {
    match o {
        Some(n) => n.well_formed(),
        None => true,
    }
}

impl View for ScanParams {
    type V = ScanParamsView;

    open spec fn view(&self) -> ScanParamsView {
        ScanParamsView {
            device_id: self.device_id@,
            resolution: self.resolution,
            mode: opt_text(self.mode),
            format: opt_text(self.format),
            source: opt_text(self.source),
            top: opt_number(self.top),
            left: opt_number(self.left),
            width: opt_number(self.width),
            height: opt_number(self.height),
            brightness: self.brightness,
            contrast: self.contrast,
            gamma_correction: opt_text(self.gamma_correction),
            color_correction: opt_text(self.color_correction),
            color_space: opt_text(self.color_space),
            depth: opt_text(self.depth),
            dynamic_lineart: self.dynamic_lineart,
            is_preview: self.is_preview,
        }
    }
}

impl ScanParams {
    /// Every length given is a well-formed number.
    pub open spec fn well_formed(&self) -> bool {
        &&& opt_number_well_formed(self.top)
        &&& opt_number_well_formed(self.left)
        &&& opt_number_well_formed(self.width)
        &&& opt_number_well_formed(self.height)
    }
}

/// Why a text does not hold a resolution.
pub enum ReadFailure {
    Empty,
    InvalidDigit,
    TooLarge,
}

/// Reads the digits `s` after the value `acc` read so far, left to right:
/// the first character that is not a digit, or the first digit that takes
/// the value past `u32::MAX`, ends the reading in failure.
pub open spec fn read_digits_after(s: Seq<char>, acc: nat) -> Result<nat, ReadFailure>
    decreases s.len(),
{
    if s.len() == 0 {
        Ok(acc)
    } else if !is_digit_char(s[0]) {
        Err(ReadFailure::InvalidDigit)
    } else {
        let a = acc * 10 + (s[0] as int - 48) as nat;
        if a > u32::MAX {
            Err(ReadFailure::TooLarge)
        } else {
            read_digits_after(s.drop_first(), a)
        }
    }
}

/// Reads a resolution written in decimal, with an optional leading `+`, as
/// `str::parse::<u32>` does.
pub open spec fn read_resolution(s: Seq<char>) -> Result<nat, ReadFailure> {
    if s.len() == 0 {
        Err(ReadFailure::Empty)
    } else {
        let body = if s[0] == '+' { s.drop_first() } else { s };
        if body.len() == 0 {
            Err(ReadFailure::InvalidDigit)
        } else {
            read_digits_after(body, 0)
        }
    }
}

/// The message for each way reading a resolution fails.
pub open spec fn read_failure_message(f: ReadFailure) -> Seq<char> {
    match f {
        ReadFailure::Empty => "cannot parse integer from empty string"@,
        ReadFailure::InvalidDigit => "invalid digit found in string"@,
        ReadFailure::TooLarge => "number too large to fit in target type"@,
    }
}

/// A resolution sent as text: its value, or the message why it is none.
pub fn resolution_from_text(s: &str) -> (r: Result<u32, String>)
    ensures
        match read_resolution(s@) {
            Ok(v) => r matches Ok(n) && n == v,
            Err(f) => r matches Err(m) && m@ == read_failure_message(f),
        },
{
    let n = s.unicode_len();
    if n == 0 {
        return Err(String::from_str("cannot parse integer from empty string"));
    }
    let start: usize = if s.get_char(0) == '+' { 1 } else { 0 };
    let ghost body = if s@[0] == '+' { s@.drop_first() } else { s@ };
    assert(body =~= s@.skip(start as int));
    if start == n {
        return Err(String::from_str("invalid digit found in string"));
    }
    let mut acc: u64 = 0;
    let mut i = start;
    while i < n
        invariant
            start <= i <= n,
            n == s@.len(),
            acc <= u32::MAX,
            read_resolution(s@) == read_digits_after(s@.skip(i as int), acc as nat),
        decreases n - i,
    {
        let c = s.get_char(i);
        let ghost rest = s@.skip(i as int);
        assert(rest[0] == c);
        assert(rest.drop_first() =~= s@.skip(i + 1));
        if !('0' <= c && c <= '9') {
            return Err(String::from_str("invalid digit found in string"));
        }
        let d: u64 = (c as u32 - 48) as u64;
        let a: u64 = acc * 10 + d;
        if a > 0xffff_ffff {
            return Err(String::from_str("number too large to fit in target type"));
        }
        acc = a;
        i = i + 1;
    }
    assert(s@.skip(n as int) =~= Seq::<char>::empty());
    Ok(acc as u32)
}

/// The digit step of reading: `c` after the value `v`.
pub open spec fn read_step(v: nat, c: char) -> Result<nat, ReadFailure> {
    if !is_digit_char(c) {
        Err(ReadFailure::InvalidDigit)
    } else if v * 10 + (c as int - 48) as nat > u32::MAX {
        Err(ReadFailure::TooLarge)
    } else {
        Ok(v * 10 + (c as int - 48) as nat)
    }
}

proof fn lemma_read_push(s: Seq<char>, c: char, acc: nat)
    ensures
        read_digits_after(s.push(c), acc) == (match read_digits_after(s, acc) {
            Ok(v) => read_step(v, c),
            Err(e) => Err(e),
        }),
    decreases s.len(),
{
    if s.len() == 0 {
        let t = s.push(c);
        assert(t.drop_first() =~= Seq::<char>::empty());
        assert(t[0] == c);
        let a = acc * 10 + (c as int - 48) as nat;
        assert(read_digits_after(Seq::<char>::empty(), a) == Ok::<nat, ReadFailure>(a));
        assert(read_digits_after(s, acc) == Ok::<nat, ReadFailure>(acc));
    } else {
        let t = s.push(c);
        assert(t[0] == s[0]);
        assert(t.drop_first() =~= s.drop_first().push(c));
        if is_digit_char(s[0]) {
            let a = acc * 10 + (s[0] as int - 48) as nat;
            if a <= u32::MAX {
                lemma_read_push(s.drop_first(), c, a);
            }
        }
    }
}

proof fn lemma_read_decimal(n: nat)
    requires
        n <= u32::MAX,
    ensures
        read_digits_after(decimal(n), 0) == Ok::<nat, ReadFailure>(n),
        decimal(n).len() > 0,
        is_digit_char(decimal(n)[0]),
    decreases n,
{
    if n < 10 {
        let d = decimal(n);
        let c = crate::text::digit_char(n);
        assert(d == seq![c]);
        assert(c as int == n + 48);
        assert(d.drop_first() =~= Seq::<char>::empty());
        assert(read_digits_after(Seq::<char>::empty(), n) == Ok::<nat, ReadFailure>(n));
    } else {
        lemma_read_decimal(n / 10);
        let c = crate::text::digit_char(n % 10);
        assert(c as int == n % 10 + 48);
        lemma_read_push(decimal(n / 10), c, 0);
        assert(decimal(n) == decimal(n / 10).push(c));
        assert(decimal(n)[0] == decimal(n / 10)[0]);
    }
}

/// A resolution written in decimal, as the command line writes it, reads
/// back as itself.
pub proof fn lemma_resolution_text_reads_back(n: u32)
    ensures
        read_resolution(decimal(n as nat)) == Ok::<nat, ReadFailure>(n as nat),
{
    lemma_read_decimal(n as nat);
}

/// A resolution sent as a number: its value, or the message when it does
/// not fit in 32 bits.
pub fn resolution_from_number(v: u64) -> (r: Result<u32, String>)
    ensures
        v <= u32::MAX ==> (r matches Ok(n) && n == v),
        v > u32::MAX ==> (r matches Err(m) && m@ == "out of range integral type conversion attempted"@),
{
    if v <= 0xffff_ffff {
        Ok(v as u32)
    } else {
        Err(String::from_str("out of range integral type conversion attempted"))
    }
}

} // verus!

//! Scanned files: names a client may use, where they live, and how they are listed.

use vstd::prelude::*;
use crate::error::{AppError, ErrorView, unit_outcome};
use crate::text::{
    decimal, lemma_text_less_asymmetric, lemma_text_less_total, lemma_text_less_transitive,
    push_char, push_decimal, text_before, text_less,
};

verus! {

/// Characters that a file name may not hold.
pub open spec fn is_forbidden_char(c: char) -> bool {
    c == '/' || c == '\\' || c == '?' || c == '%' || c == '*' || c == ':' || c == '|'
        || c == '"' || c == '<' || c == '>' || c == ';' || c == '='
}

/// `s` holds two dots in a row.
pub open spec fn has_double_dot(s: Seq<char>) -> bool {
    exists|i: int| 0 <= i && i + 1 < s.len() && #[trigger] s[i] == '.' && s[i + 1] == '.'
}

/// `s` holds a forbidden character.
pub open spec fn has_forbidden_char(s: Seq<char>) -> bool {
    exists|i: int| 0 <= i < s.len() && is_forbidden_char(s[i])
}

/// The characters a file name may not hold are exactly these twelve:
/// `/ \ ? % * : | " < > ; =`.
pub proof fn lemma_forbidden_chars_listed(c: char)
    ensures
        is_forbidden_char(c) <==> seq!['/', '\\', '?', '%', '*', ':', '|', '"', '<', '>', ';', '='].contains(c),
{
    let l = seq!['/', '\\', '?', '%', '*', ':', '|', '"', '<', '>', ';', '='];
    if is_forbidden_char(c) {
        let i: int = if c == '/' { 0 } else if c == '\\' { 1 } else if c == '?' { 2 } else if c == '%' {
            3
        } else if c == '*' { 4 } else if c == ':' { 5 } else if c == '|' { 6 } else if c == '"' {
            7
        } else if c == '<' { 8 } else if c == '>' { 9 } else if c == ';' { 10 } else { 11 };
        assert(l[i] == c);
    }
    if l.contains(c) {
        let i = choose|i: int| 0 <= i < l.len() && l[i] == c;
        assert(0 <= i < 12);
    }
}

/// Why a file name is refused, checked in this order; `None` when it is accepted.
pub open spec fn filename_problem(name: Seq<char>) -> Option<Seq<char>> {
    if name.len() == 0 {
        Some("Filename cannot be empty"@)
    } else if has_double_dot(name) {
        Some("Parent paths disallowed"@)
    } else if name[0] == '/' {
        Some("Absolute paths disallowed"@)
    } else if name.contains('\0') {
        Some("Null bytes disallowed"@)
    } else if has_forbidden_char(name) {
        Some("Name cannot contain illegal characters"@)
    } else {
        None
    }
}

/// A file name accepted by [`validate_filename`].
pub open spec fn valid_filename(name: Seq<char>) -> bool {
    filename_problem(name) is None
}

/// A name is accepted exactly when it is not empty, does not start with
/// `/`, holds no NUL, no two dots in a row and none of the twelve
/// characters `/ \ ? % * : | " < > ; =`. Any other character, letters of
/// either case, digits and spaces among them, is allowed.
pub proof fn lemma_accepted_names(name: Seq<char>)
    ensures
        valid_filename(name) <==> {
            &&& name.len() > 0
            &&& name[0] != '/'
            &&& forall|i: int| 0 <= i < name.len() ==> #[trigger] name[i] != '\0'
            &&& forall|i: int| 0 <= i < name.len() - 1 ==> !(#[trigger] name[i] == '.' && name[i + 1] == '.')
            &&& forall|i: int|
                0 <= i < name.len() ==> !seq!['/', '\\', '?', '%', '*', ':', '|', '"', '<', '>', ';', '='].contains(
                    #[trigger] name[i],
                )
        },
{
    assert forall|i: int| 0 <= i < name.len() implies (is_forbidden_char(#[trigger] name[i]) <==> seq![
        '/',
        '\\',
        '?',
        '%',
        '*',
        ':',
        '|',
        '"',
        '<',
        '>',
        ';',
        '=',
    ].contains(name[i])) by {
        lemma_forbidden_chars_listed(name[i]);
    }
    if has_double_dot(name) {
        let i = choose|i: int| 0 <= i && i + 1 < name.len() && #[trigger] name[i] == '.' && name[i + 1] == '.';
        assert(name[i] == '.' && name[i + 1] == '.');
    }
    if name.contains('\0') {
        let i = choose|i: int| 0 <= i < name.len() && name[i] == '\0';
        assert(name[i] == '\0');
    }
    if has_forbidden_char(name) {
        let i = choose|i: int| 0 <= i < name.len() && is_forbidden_char(name[i]);
        assert(is_forbidden_char(name[i]));
    }
}

fn contains_char(s: &str, c: char) -> (r: bool)
    ensures
        r == s@.contains(c),
{
    let n = s.unicode_len();
    let mut i: usize = 0;
    while i < n
        invariant
            n == s@.len(),
            i <= n,
            forall|j: int| 0 <= j < i ==> s@[j] != c,
        decreases n - i,
    {
        if s.get_char(i) == c {
            assert(s@[i as int] == c);
            return true;
        }
        i = i + 1;
    }
    false
}

fn contains_double_dot(s: &str) -> (r: bool)
    ensures
        r == has_double_dot(s@),
{
    let n = s.unicode_len();
    let mut i: usize = 0;
    while i < n && i + 1 < n
        invariant
            n == s@.len(),
            i <= n,
            forall|j: int| 0 <= j < i && j + 1 < n ==> !(#[trigger] s@[j] == '.' && s@[j + 1] == '.'),
        decreases n - i,
    {
        if s.get_char(i) == '.' && s.get_char(i + 1) == '.' {
            return true;
        }
        i = i + 1;
    }
    false
}

fn contains_forbidden(s: &str) -> (r: bool)
    ensures
        r == has_forbidden_char(s@),
{
    let n = s.unicode_len();
    let mut i: usize = 0;
    while i < n
        invariant
            n == s@.len(),
            i <= n,
            forall|j: int| 0 <= j < i ==> !is_forbidden_char(s@[j]),
        decreases n - i,
    {
        let c = s.get_char(i);
        if c == '/' || c == '\\' || c == '?' || c == '%' || c == '*' || c == ':' || c == '|'
            || c == '"' || c == '<' || c == '>' || c == ';' || c == '=' {
            return true;
        }
        i = i + 1;
    }
    false
}

fn bad_request(msg: &str) -> (e: AppError)
    ensures
        e@ == ErrorView::BadRequest(msg@),
{
    AppError::BadRequest(String::from_str(msg))
}

/// Checks that `name` can name a file inside a directory: it is not empty,
/// holds no `..`, does not start with `/`, holds no NUL and none of the
/// characters `/ \ ? % * : | " < > ; =`. The first failed check decides the message.
pub fn validate_filename(name: &str) -> (r: Result<(), AppError>)
    ensures
        unit_outcome(r) == (match filename_problem(name@) {
            Some(m) => Some(ErrorView::BadRequest(m)),
            None => None,
        }),
{
    if name.unicode_len() == 0 {
        return Err(bad_request("Filename cannot be empty"));
    }
    if contains_double_dot(name) {
        return Err(bad_request("Parent paths disallowed"));
    }
    if name.get_char(0) == '/' {
        return Err(bad_request("Absolute paths disallowed"));
    }
    if contains_char(name, '\0') {
        return Err(bad_request("Null bytes disallowed"));
    }
    if contains_forbidden(name) {
        return Err(bad_request("Name cannot contain illegal characters"));
    }
    Ok(())
}

/// `name` adjoined to the directory path `dir`, as a path join does on Unix:
/// a name that starts with `/` replaces the directory; otherwise a `/` separates
/// the two unless `dir` is empty or already ends with one.
pub open spec fn joined(dir: Seq<char>, name: Seq<char>) -> Seq<char> {
    if name.len() > 0 && name[0] == '/' {
        name
    } else if dir.len() == 0 || dir.last() == '/' {
        dir + name
    } else {
        dir + seq!['/'] + name
    }
}

/// Adjoins `name` to the directory path `dir`.
pub fn join_path(dir: &str, name: &str) -> (p: String)
    ensures
        p@ == joined(dir@, name@),
{
    let nl = name.unicode_len();
    if nl > 0 && name.get_char(0) == '/' {
        return String::from_str(name);
    }
    let dl = dir.unicode_len();
    let mut p = String::from_str(dir);
    if dl > 0 && dir.get_char(dl - 1) != '/' {
        push_char(&mut p, '/');
    }
    p.append(name);
    p
}

/// A name that passes [`validate_filename`], adjoined to a directory, names
/// a file directly inside that directory: the path is the directory, a
/// separator where one is needed, and the name, which holds neither `/` nor `..`.
pub proof fn lemma_valid_name_stays_in_dir(dir: Seq<char>, name: Seq<char>)
    requires
        valid_filename(name),
    ensures
        !name.contains('/'),
        !has_double_dot(name),
        joined(dir, name) == dir + name || joined(dir, name) == dir + seq!['/'] + name,
{
    if name.contains('/') {
        let i = choose|i: int| 0 <= i < name.len() && name[i] == '/';
        assert(is_forbidden_char(name[i]));
    }
}

/// The path of file `filename` inside directory `dir`, once the name passes
/// [`validate_filename`]. An accepted path is the directory, a separator where
/// one is needed, and the name, and the name holds neither `/` nor `..`: it
/// stays within `dir`.
pub fn safe_path(dir: &str, filename: &str) -> (r: Result<String, AppError>)
    ensures
        match filename_problem(filename@) {
            Some(m) => r matches Err(e) && e@ == ErrorView::BadRequest(m),
            None => r matches Ok(p) && p@ == joined(dir@, filename@),
        },
        r matches Ok(p) ==> {
            &&& !filename@.contains('/')
            &&& !has_double_dot(filename@)
            &&& p@ == dir@ + filename@ || p@ == dir@ + seq!['/'] + filename@
        },
{
    match validate_filename(filename) {
        Err(e) => Err(e),
        Ok(()) => {
            proof {
                if filename@.contains('/') {
                    let i = choose|i: int| 0 <= i < filename@.len() && filename@[i] == '/';
                    assert(is_forbidden_char(filename@[i]));
                }
            }
            Ok(join_path(dir, filename))
        },
    }
}

/// 2 to the power `n`.
pub open spec fn power_of_two(n: nat) -> nat
    decreases n,
{
    if n == 0 {
        1
    } else {
        2 * power_of_two((n - 1) as nat)
    }
}

/// How many low bits `b` loses when held in a 53-bit significand.
pub open spec fn significand_shift(b: nat) -> nat
    decreases b,
{
    if b < 0x20_0000_0000_0000 {
        0
    } else {
        1 + significand_shift(b / 2)
    }
}

/// The value of `b` as a double: `b` rounded to the nearest multiple of
/// 2^shift, halves going to the even multiple.
pub open spec fn nearest_double(b: nat) -> nat {
    let s = significand_shift(b);
    if s == 0 {
        b
    } else {
        let p = power_of_two(s);
        let q = b / p;
        let r = b % p;
        let h = p / 2;
        if r > h || (r == h && q % 2 == 1) {
            (q + 1) * p
        } else {
            q * p
        }
    }
}

/// `a / d` rounded to the nearest integer, halves rounded up.
pub open spec fn rounded_div(a: nat, d: nat) -> nat {
    (a + d / 2) / d
}

/// The human-readable size of `b` bytes: the amount in the largest unit of
/// B, KB, MB, GB (each 1024 of the one before) under which it stays below
/// 1024, rounded to a whole number, else in TB. The TB amount is taken from
/// `b` as a double, so that it rounds as double arithmetic does.
pub open spec fn size_text(b: nat) -> Seq<char> {
    if b < 1024 {
        decimal(b) + " B"@
    } else if b < 0x10_0000 {
        decimal(rounded_div(b, 0x400)) + " KB"@
    } else if b < 0x4000_0000 {
        decimal(rounded_div(b, 0x10_0000)) + " MB"@
    } else if b < 0x100_0000_0000 {
        decimal(rounded_div(b, 0x4000_0000)) + " GB"@
    } else {
        decimal(rounded_div(nearest_double(b), 0x100_0000_0000)) + " TB"@
    }
}

/// The number of bytes in one of the `k`-th unit: 1024 to the power `k`.
pub open spec fn unit_bytes(k: nat) -> nat
    decreases k,
{
    if k == 0 {
        1
    } else {
        1024 * unit_bytes((k - 1) as nat)
    }
}

/// The names of the units, each 1024 of the one before.
pub open spec fn unit_names() -> Seq<Seq<char>> {
    seq!["B"@, "KB"@, "MB"@, "GB"@, "TB"@]
}

/// Past the significand, `b` keeps 53 bits: what is left after the shift
/// is at least 2^52.
proof fn lemma_shifted_significand(b: nat)
    requires
        b >= 0x20_0000_0000_0000,
    ensures
        significand_shift(b) >= 1,
        b / power_of_two(significand_shift(b)) >= 0x10_0000_0000_0000,
    decreases b,
{
    let h = b / 2;
    if h < 0x20_0000_0000_0000 {
        assert(significand_shift(h) == 0);
        reveal_with_fuel(power_of_two, 2);
        assert(power_of_two(1) == 2);
    } else {
        lemma_shifted_significand(h);
        let s = significand_shift(h);
        lemma_power_of_two_positive(s);
        assert(power_of_two(s + 1) == 2 * power_of_two(s));
        vstd::arithmetic::div_mod::lemma_div_denominator(b as int, 2, power_of_two(s) as int);
    }
}

/// A double rounded from `b` of at least a TB is at least half a TB.
proof fn lemma_nearest_double_large(b: nat)
    requires
        b >= 0x100_0000_0000,
    ensures
        nearest_double(b) >= 0x80_0000_0000,
{
    let s = significand_shift(b);
    if s != 0 {
        if b < 0x20_0000_0000_0000 {
            assert(significand_shift(b) == 0);
        }
        lemma_shifted_significand(b);
        let p = power_of_two(s);
        lemma_power_of_two_positive(s);
        let q = b / p;
        assert(q * p >= q) by (nonlinear_arith)
            requires
                p >= 1,
        ;
        assert((q + 1) * p >= q) by (nonlinear_arith)
            requires
                p >= 1,
        ;
    }
}

/// A human-readable size is an amount, a space and a unit, the unit being
/// the largest of B, KB, MB and GB in which `b` is below 1024 of it, else
/// TB. Below TB the amount is `b` in that unit rounded to the nearest whole
/// number, halves up (the whole number `a` with `a * unit <= b + unit / 2 <
/// (a + 1) * unit`); in TB it is rounded from `b` as a double. Any size
/// but zero bytes has an amount of at least one, and below TB of at most
/// 1024.
pub proof fn lemma_size_unit(b: u64, k: nat)
    requires
        k <= 4,
        k > 0 ==> unit_bytes(k) <= b,
        k < 4 ==> b < unit_bytes(k + 1),
    ensures
        k < 4 ==> size_text(b as nat) == decimal(rounded_div(b as nat, unit_bytes(k))) + " "@
            + unit_names()[k as int],
        k == 4 ==> size_text(b as nat) == decimal(rounded_div(nearest_double(b as nat), unit_bytes(4)))
            + " "@ + unit_names()[4],
        k < 4 ==> rounded_div(b as nat, unit_bytes(k)) * unit_bytes(k) <= b + unit_bytes(k) / 2 < (
        rounded_div(b as nat, unit_bytes(k)) + 1) * unit_bytes(k),
        k < 4 && b > 0 ==> 1 <= rounded_div(b as nat, unit_bytes(k)) <= 1024,
        k == 4 ==> rounded_div(nearest_double(b as nat), unit_bytes(4)) >= 1,
{
    reveal_with_fuel(unit_bytes, 5);
    reveal_strlit(" B");
    reveal_strlit(" KB");
    reveal_strlit(" MB");
    reveal_strlit(" GB");
    reveal_strlit(" TB");
    reveal_strlit(" ");
    reveal_strlit("B");
    reveal_strlit("KB");
    reveal_strlit("MB");
    reveal_strlit("GB");
    reveal_strlit("TB");
    assert(" B"@ =~= " "@ + "B"@);
    assert(" KB"@ =~= " "@ + "KB"@);
    assert(" MB"@ =~= " "@ + "MB"@);
    assert(" GB"@ =~= " "@ + "GB"@);
    assert(" TB"@ =~= " "@ + "TB"@);
    let bn = b as nat;
    if k == 4 {
        lemma_nearest_double_large(bn);
    }
    if k == 0 {
        assert(rounded_div(bn, 1) == bn);
    }
    if k < 4 {
        let u = unit_bytes(k);
        assert(u == 1 || u == 1024 || u == 0x10_0000 || u == 0x4000_0000);
        assert(bn < 1024 * u);
        let a = rounded_div(bn, u);
        assert(a * u <= bn + u / 2 < (a + 1) * u) by (nonlinear_arith)
            requires
                u >= 1,
                a == (bn + u / 2) / u,
        ;
        assert(rounded_div(bn, u) <= 1024) by (nonlinear_arith)
            requires
                u >= 1,
                bn < 1024 * u,
                rounded_div(bn, u) == (bn + u / 2) / u,
        ;
        if b > 0 {
            assert(rounded_div(bn, u) >= 1) by (nonlinear_arith)
                requires
                    u >= 1,
                    bn >= 1,
                    k > 0 ==> u <= bn,
                    k == 0 ==> u == 1,
                    rounded_div(bn, u) == (bn + u / 2) / u,
            ;
        }
    }
}

proof fn lemma_power_of_two_positive(n: nat)
    ensures
        power_of_two(n) > 0,
    decreases n,
{
    if n > 0 {
        lemma_power_of_two_positive((n - 1) as nat);
    }
}

/// `b as f64`, as an exact integer.
fn double_value(b: u64) -> (m: u128)
    ensures
        m == nearest_double(b as nat),
        m <= b + 4096,
{
    let bb: u128 = b as u128;
    let mut t: u128 = bb;
    let mut p: u128 = 1;
    let ghost mut s: nat = 0;
    while t >= 0x20_0000_0000_0000
        invariant
            bb == b,
            bb < 0x1_0000_0000_0000_0000,
            p == power_of_two(s),
            t == bb / p,
            1 <= p < 4096,
            significand_shift(b as nat) == s + significand_shift(t as nat),
        decreases t,
    {
        proof {
            assert(p * t <= bb) by (nonlinear_arith)
                requires
                    t == bb / p,
                    p > 0,
            ;
            assert(p * 0x20_0000_0000_0000 <= p * t) by (nonlinear_arith)
                requires
                    t >= 0x20_0000_0000_0000,
                    p > 0,
            ;
            assert(p < 2048);
            vstd::arithmetic::div_mod::lemma_div_denominator(bb as int, p as int, 2);
        }
        t = t / 2;
        p = p * 2;
        proof {
            s = s + 1;
        }
    }
    if p == 1 {
        return bb;
    }
    proof {
        lemma_power_of_two_positive(s);
        assert(p * t <= bb) by (nonlinear_arith)
            requires
                t == bb / p,
                p > 0,
        ;
        assert(bb % p == bb - p * t) by (nonlinear_arith)
            requires
                t == bb / p,
                p > 0,
        ;
    }
    let q: u128 = t;
    let r: u128 = bb - q * p;
    let h: u128 = p / 2;
    assert((q + 1) * p == q * p + p) by (nonlinear_arith);
    if r > h || (r == h && q % 2 == 1) {
        (q + 1) * p
    } else {
        q * p
    }
}

/// The human-readable size of `bytes`, such as `512 B`, `2 KB` or `1 GB`.
pub fn format_size(bytes: u64) -> (s: String)
    ensures
        s@ == size_text(bytes as nat),
{
    let mut s = String::new();
    if bytes < 1024 {
        push_decimal(&mut s, bytes);
        s.append(" B");
    } else if bytes < 0x10_0000 {
        push_decimal(&mut s, (bytes + 0x200) / 0x400);
        s.append(" KB");
    } else if bytes < 0x4000_0000 {
        push_decimal(&mut s, (bytes + 0x8_0000) / 0x10_0000);
        s.append(" MB");
    } else if bytes < 0x100_0000_0000 {
        push_decimal(&mut s, (bytes + 0x2000_0000) / 0x4000_0000);
        s.append(" GB");
    } else {
        let m = double_value(bytes);
        let n: u128 = (m + 0x80_0000_0000) / 0x100_0000_0000;
        assert(n <= 0x200_0000) by (nonlinear_arith)
            requires
                m <= 0x1_0000_0000_0000_1000,
                n == (m + 0x80_0000_0000) / 0x100_0000_0000,
        ;
        push_decimal(&mut s, n as u64);
        s.append(" TB");
    }
    s
}

/// What the service tells a client about a scanned file.
#[derive(Debug, Clone, PartialEq, Eq)]
pub struct FileInfo {
    pub fullname: String,
    pub name: String,
    pub extension: String,
    pub path: String,
    pub size: u64,
    pub size_string: String,
    pub last_modified: String,
    pub is_directory: bool,
}

/// The model of a [`FileInfo`].
pub struct FileInfoView {
    pub fullname: Seq<char>,
    pub name: Seq<char>,
    pub extension: Seq<char>,
    pub path: Seq<char>,
    pub size: u64,
    pub size_string: Seq<char>,
    pub last_modified: Seq<char>,
    pub is_directory: bool,
}

impl View for FileInfo {
    type V = FileInfoView;

    open spec fn view(&self) -> FileInfoView {
        FileInfoView {
            fullname: self.fullname@,
            name: self.name@,
            extension: self.extension@,
            path: self.path@,
            size: self.size,
            size_string: self.size_string@,
            last_modified: self.last_modified@,
            is_directory: self.is_directory,
        }
    }
}

/// The final component of a path, as std's `Path::file_name` finds it
/// (`None` for a path that ends in `..` or names a root).
pub uninterp spec fn path_file_name(p: Seq<char>) -> Option<Seq<char>>;

/// The path without its final component, as std's `Path::parent` finds it.
pub uninterp spec fn path_parent(p: Seq<char>) -> Option<Seq<char>>;

/// The final component of `p`: std's `Path::file_name`, its result turned
/// back into a string. Besides naming the result, the contract claims that
/// a path of one component that is not `.` or `..` is its own file name.
#[verifier::external_body]
pub(crate) fn file_name_of(p: &str) -> (r: Option<String>)
    ensures
        r is Some <==> path_file_name(p@) is Some,
        r is Some ==> path_file_name(p@) == Some(r.unwrap()@),
        (p@.len() > 0 && !p@.contains('/') && p@ != "."@ && p@ != ".."@) ==> r is Some && r.unwrap()@
            == p@,
{
    match std::path::Path::new(p).file_name() {
        Some(n) => Some(n.to_string_lossy().into_owned()),
        None => None,
    }
}

/// The parent of `p`: std's `Path::parent`, its result turned back into a
/// string. The contract names the result and claims nothing more.
#[verifier::external_body]
pub(crate) fn parent_of(p: &str) -> (r: Option<String>)
    ensures
        r is Some <==> path_parent(p@) is Some,
        r is Some ==> path_parent(p@) == Some(r.unwrap()@),
{
    match std::path::Path::new(p).parent() {
        Some(n) => Some(n.to_string_lossy().into_owned()),
        None => None,
    }
}

/// The position of the last `.` in `s`.
pub open spec fn last_dot(s: Seq<char>) -> Option<int>
    decreases s.len(),
{
    if s.len() == 0 {
        None
    } else if s.last() == '.' {
        Some(s.len() - 1)
    } else {
        last_dot(s.drop_last())
    }
}

/// The extension of a file name: what follows its last `.`, unless there is
/// no `.` or the only one starts the name.
pub open spec fn name_extension(name: Seq<char>) -> Option<Seq<char>> {
    match last_dot(name) {
        None => None,
        Some(i) => if i == 0 {
            None
        } else {
            Some(name.subrange(i + 1, name.len() as int))
        },
    }
}

/// The extension of path `p` with its dot, such as `.jpg`; empty when the
/// file name has no extension or the path has no file name.
pub open spec fn extension_text(p: Seq<char>) -> Seq<char> {
    match path_file_name(p) {
        Some(n) => match name_extension(n) {
            Some(e) => seq!['.'] + e,
            None => Seq::empty(),
        },
        None => Seq::empty(),
    }
}

proof fn lemma_last_dot(s: Seq<char>)
    ensures
        match last_dot(s) {
            Some(i) => 0 <= i < s.len() && s[i] == '.' && forall|j: int| i < j < s.len() ==> s[j] != '.',
            None => forall|j: int| 0 <= j < s.len() ==> s[j] != '.',
        },
    decreases s.len(),
{
    if s.len() > 0 && s.last() != '.' {
        lemma_last_dot(s.drop_last());
        assert forall|j: int| 0 <= j < s.len() - 1 implies s[j] == s.drop_last()[j] by {}
    }
}

/// The position of the last `.` in `s`.
fn find_last_dot(s: &str) -> (r: Option<usize>)
    ensures
        match r {
            Some(i) => last_dot(s@) == Some(i as int),
            None => last_dot(s@) is None,
        },
{
    let n = s.unicode_len();
    let mut i = n;
    assert(s@.subrange(0, n as int) =~= s@);
    while i > 0
        invariant
            i <= n,
            n == s@.len(),
            last_dot(s@) == last_dot(s@.subrange(0, i as int)),
        decreases i,
    {
        let ghost t = s@.subrange(0, i as int);
        assert(t.drop_last() =~= s@.subrange(0, i - 1));
        if s.get_char(i - 1) == '.' {
            return Some(i - 1);
        }
        i = i - 1;
    }
    None
}

/// The extension of path `p` with its dot, such as `.jpg`, or empty.
pub fn extension_of(p: &str) -> (e: String)
    ensures
        e@ == extension_text(p@),
{
    match file_name_of(p) {
        None => String::new(),
        Some(name) => {
            let n = name.as_str();
            match find_last_dot(n) {
                None => String::new(),
                Some(i) => {
                    if i == 0 {
                        String::new()
                    } else {
                        proof {
                            lemma_last_dot(n@);
                        }
                        let len = n.unicode_len();
                        let rest = n.substring_char(i + 1, len);
                        let mut e = String::new();
                        push_char(&mut e, '.');
                        e.append(rest);
                        e
                    }
                },
            }
        },
    }
}

/// The timestamp of the earliest instant that chrono's `DateTime<Utc>` holds.
pub const MIN_UTC_SECS: i64 = -8_334_601_228_800;

/// The timestamp of the last whole second that chrono's `DateTime<Utc>` holds.
pub const MAX_UTC_SECS: i64 = 8_210_266_876_799;

/// The RFC 3339 text that chrono writes for the UTC instant `secs` seconds
/// and `nanos` nanoseconds after the Unix epoch.
pub uninterp spec fn rfc3339_text(secs: i64, nanos: u32) -> Seq<char>;

/// The instant `secs` seconds and `nanos` nanoseconds after the Unix epoch,
/// in UTC, written as RFC 3339: chrono's `DateTime::<Utc>::from_timestamp`
/// and then `to_rfc3339`. The contract names the text and claims, as
/// chrono's source shows, that there is none when `nanos` reaches two
/// seconds, and that for `nanos` below a second there is one exactly when
/// `secs` lies between the timestamps of `DateTime::<Utc>::MIN_UTC`
/// (the first second of the year -262143) and `DateTime::<Utc>::MAX_UTC`
/// (the last second of the year 262142), both included.
#[verifier::external_body]
fn rfc3339_utc(secs: i64, nanos: u32) -> (r: Option<String>)
    ensures
        nanos >= 2_000_000_000 ==> r is None,
        nanos < 1_000_000_000 ==> (r is Some <==> MIN_UTC_SECS <= secs <= MAX_UTC_SECS),
        r matches Some(t) ==> t@ == rfc3339_text(secs, nanos),
{
    match chrono::DateTime::<chrono::Utc>::from_timestamp(secs, nanos) {
        Some(d) => Some(d.to_rfc3339()),
        None => None,
    }
}

/// A modification time that [`modified_text`] can write.
pub open spec fn writable_time(secs: i64, nanos: u32) -> bool {
    nanos < 1_000_000_000 && MIN_UTC_SECS <= secs <= MAX_UTC_SECS
}

/// The modification time `secs` seconds and `nanos` nanoseconds after the
/// Unix epoch, written as RFC 3339 in UTC.
pub fn modified_text(secs: i64, nanos: u32) -> (t: String)
    requires
        writable_time(secs, nanos),
    ensures
        t@ == rfc3339_text(secs, nanos),
{
    match rfc3339_utc(secs, nanos) {
        Some(t) => t,
        None => String::new(),
    }
}

/// The description of a regular file.
pub open spec fn file_view(
    fullname: Seq<char>,
    name: Seq<char>,
    extension: Seq<char>,
    path: Seq<char>,
    size: u64,
    last_modified: Seq<char>,
) -> FileInfoView {
    FileInfoView {
        fullname,
        name,
        extension,
        path,
        size,
        size_string: size_text(size as nat),
        last_modified,
        is_directory: false,
    }
}

/// Describes a regular file: its full path, name, extension, directory,
/// size (also in human-readable form) and modification time.
pub fn file_info(
    fullname: String,
    name: String,
    extension: String,
    path: String,
    size: u64,
    last_modified: String,
) -> (f: FileInfo)
    ensures
        f@ == file_view(fullname@, name@, extension@, path@, size, last_modified@),
{
    FileInfo {
        fullname,
        name,
        extension,
        path,
        size,
        size_string: format_size(size),
        last_modified,
        is_directory: false,
    }
}

/// A file description keeps what it was made from: the full name, name,
/// extension, directory and modification text as given, the size in bytes
/// as given, the human-readable size written from that same byte count, and
/// it is not a directory.
pub proof fn lemma_file_view_fields(
    fullname: Seq<char>,
    name: Seq<char>,
    extension: Seq<char>,
    path: Seq<char>,
    size: u64,
    last_modified: Seq<char>,
)
    ensures
        ({
            let f = file_view(fullname, name, extension, path, size, last_modified);
            &&& f.fullname == fullname
            &&& f.name == name
            &&& f.extension == extension
            &&& f.path == path
            &&& f.size == size
            &&& f.size_string == size_text(f.size as nat)
            &&& f.last_modified == last_modified
            &&& !f.is_directory
        }),
{
}

/// The models of a sequence of file descriptions.
pub open spec fn file_views(v: Seq<FileInfo>) -> Seq<FileInfoView> {
    v.map_values(|f: FileInfo| f@)
}

/// Newer files come first: no file is followed by one modified later, by
/// the order of their modification texts.
pub open spec fn newest_first(s: Seq<FileInfoView>) -> bool {
    forall|i: int, j: int|
        0 <= i < j < s.len() ==> !text_less(#[trigger] s[i].last_modified, #[trigger] s[j].last_modified)
}

/// Files modified at the text `t`.
pub open spec fn modified_at(t: Seq<char>) -> spec_fn(FileInfoView) -> bool {
    |f: FileInfoView| f.last_modified == t
}

/// For every modification text, `a` holds the same files with it as `b`, in
/// the same order. With [`newest_first`] this makes `a` the stable sort of `b`.
pub open spec fn same_files_per_time(a: Seq<FileInfoView>, b: Seq<FileInfoView>) -> bool {
    forall|t: Seq<char>| #[trigger] a.filter(modified_at(t)) == b.filter(modified_at(t))
}

proof fn lemma_filter_none(s: Seq<FileInfoView>, t: Seq<char>)
    requires
        forall|i: int| 0 <= i < s.len() ==> s[i].last_modified != t,
    ensures
        s.filter(modified_at(t)) == Seq::<FileInfoView>::empty(),
    decreases s.len(),
{
    reveal(Seq::filter);
    if s.len() > 0 {
        lemma_filter_none(s.drop_last(), t);
    }
}

proof fn lemma_filter_single(x: FileInfoView, t: Seq<char>)
    ensures
        seq![x].filter(modified_at(t)) == (if x.last_modified == t { seq![x] } else { Seq::<FileInfoView>::empty() }),
{
    reveal(Seq::filter);
    let e = Seq::<FileInfoView>::empty();
    assert(seq![x].drop_last() =~= e);
    assert(e.filter(modified_at(t)) =~= e);
    assert(seq![x].last() == x);
    assert(modified_at(t)(x) == (x.last_modified == t));
    assert(e.push(x) =~= seq![x]);
}

/// Orders file descriptions newest first; files modified at the same text
/// keep their order. The result is a rearrangement of `files`.
pub fn sort_newest_first(files: Vec<FileInfo>) -> (r: Vec<FileInfo>)
    ensures
        newest_first(file_views(r@)),
        same_files_per_time(file_views(r@), file_views(files@)),
        file_views(r@).to_multiset() == file_views(files@).to_multiset(),
        r@.len() == files@.len(),
{
    let ghost input = file_views(files@);
    let mut rest = files;
    let mut r: Vec<FileInfo> = Vec::new();
    let ghost mut c: int = 0;
    assert(input.skip(0) =~= input);
    assert forall|t: Seq<char>| #[trigger] file_views(r@).filter(modified_at(t)) == input.take(
        0,
    ).filter(modified_at(t)) by {
        reveal(Seq::filter);
        assert(input.take(0) =~= file_views(r@));
    }
    assert(input.take(0) =~= file_views(r@));
    while rest.len() > 0
        invariant
            0 <= c <= input.len(),
            file_views(rest@) == input.skip(c),
            newest_first(file_views(r@)),
            same_files_per_time(file_views(r@), input.take(c)),
            file_views(r@).to_multiset() == input.take(c).to_multiset(),
            r@.len() == c,
        decreases rest.len(),
    {
        let ghost old_r = file_views(r@);
        let ghost old_rest = rest@;
        let x = rest.remove(0);
        let ghost xv = x@;
        assert(file_views(old_rest)[0] == xv);
        assert(file_views(old_rest).len() == old_rest.len());
        assert(c < input.len());
        assert(input.skip(c)[0] == input[c]);
        assert(input[c] == xv);
        assert(rest@ =~= old_rest.subrange(1, old_rest.len() as int));
        assert forall|i: int| 0 <= i < rest@.len() implies file_views(rest@)[i] == input.skip(c + 1)[i] by {
            assert(file_views(rest@)[i] == rest@[i]@);
            assert(rest@[i] == old_rest[i + 1]);
            assert(file_views(old_rest)[i + 1] == input.skip(c)[i + 1]);
        }
        assert(file_views(rest@) =~= input.skip(c + 1));
        let mut j: usize = 0;
        while j < r.len() && !text_before(r[j].last_modified.as_str(), x.last_modified.as_str())
            invariant
                j <= r@.len(),
                old_r == file_views(r@),
                xv == x@,
                forall|i: int| 0 <= i < j ==> !text_less(#[trigger] old_r[i].last_modified, xv.last_modified),
            decreases r.len() - j,
        {
            j = j + 1;
        }
        let ghost jj = j as int;
        assert(jj < old_r.len() ==> text_less(old_r[jj].last_modified, xv.last_modified));
        r.insert(j, x);
        let ghost new_r = file_views(r@);
        assert(new_r =~= old_r.take(jj) + seq![xv] + old_r.skip(jj));
        proof {
            // every file after the insertion point is strictly older than x
            assert forall|m: int| jj <= m < old_r.len() implies text_less(
                #[trigger] old_r[m].last_modified,
                xv.last_modified,
            ) by {
                if m > jj {
                    assert(!text_less(old_r[jj].last_modified, old_r[m].last_modified));
                    lemma_text_less_total(old_r[jj].last_modified, old_r[m].last_modified);
                    if old_r[m].last_modified != old_r[jj].last_modified {
                        lemma_text_less_transitive(
                            old_r[m].last_modified,
                            old_r[jj].last_modified,
                            xv.last_modified,
                        );
                    }
                }
            }
            assert forall|a: int, b: int| 0 <= a < b < new_r.len() implies !text_less(
                #[trigger] new_r[a].last_modified,
                #[trigger] new_r[b].last_modified,
            ) by {
                if a < jj && b < jj {
                    assert(new_r[a] == old_r[a] && new_r[b] == old_r[b]);
                } else if a < jj && b == jj {
                    assert(new_r[a] == old_r[a]);
                } else if a < jj && b > jj {
                    assert(new_r[a] == old_r[a] && new_r[b] == old_r[b - 1]);
                } else if a == jj {
                    assert(new_r[b] == old_r[b - 1]);
                    assert(text_less(old_r[b - 1].last_modified, xv.last_modified));
                    lemma_text_less_asymmetric(old_r[b - 1].last_modified, xv.last_modified);
                } else {
                    assert(new_r[a] == old_r[a - 1] && new_r[b] == old_r[b - 1]);
                }
            }
            assert(input.take(c + 1) =~= input.take(c) + seq![xv]);
            assert(new_r =~= old_r.insert(jj, xv));
            assert(input.take(c + 1) =~= input.take(c).push(xv));
            vstd::seq_lib::to_multiset_insert(old_r, jj, xv);
            vstd::seq_lib::to_multiset_build(input.take(c), xv);
            assert forall|t: Seq<char>| #[trigger] new_r.filter(modified_at(t)) == input.take(
                c + 1,
            ).filter(modified_at(t)) by {
                let a_part = old_r.take(jj);
                let b_part = old_r.skip(jj);
                assert(old_r =~= a_part + b_part);
                Seq::filter_distributes_over_add(a_part + seq![xv], b_part, modified_at(t));
                Seq::filter_distributes_over_add(a_part, seq![xv], modified_at(t));
                Seq::filter_distributes_over_add(a_part, b_part, modified_at(t));
                Seq::filter_distributes_over_add(input.take(c), seq![xv], modified_at(t));
                lemma_filter_single(xv, t);
                if xv.last_modified == t {
                    assert forall|i: int| 0 <= i < b_part.len() implies b_part[i].last_modified != t by {
                        assert(b_part[i] == old_r[jj + i]);
                        assert(text_less(old_r[jj + i].last_modified, xv.last_modified));
                        lemma_text_less_asymmetric(xv.last_modified, xv.last_modified);
                    }
                    lemma_filter_none(b_part, t);
                    assert(new_r.filter(modified_at(t)) =~= a_part.filter(modified_at(t)) + seq![xv]);
                    assert(old_r.filter(modified_at(t)) =~= a_part.filter(modified_at(t)));
                } else {
                    assert(new_r.filter(modified_at(t)) =~= old_r.filter(modified_at(t)));
                }
            }
            c = c + 1;
        }
    }
    assert(input.take(c) =~= input);
    r
}

/// What a directory listing tells about one entry: its name, whether it is
/// a regular file, its size, and when it was last modified, in seconds and
/// nanoseconds after the Unix epoch.
#[derive(Debug, PartialEq, Eq)]
pub struct DirEntry {
    pub name: String,
    pub is_file: bool,
    pub size: u64,
    pub modified_secs: i64,
    pub modified_nanos: u32,
}

/// The description of directory entry `e` found in directory `dir`: its
/// full name is its name adjoined to the directory.
pub open spec fn entry_view(dir: Seq<char>, e: DirEntry) -> FileInfoView {
    file_view(
        joined(dir, e.name@),
        e.name@,
        extension_text(e.name@),
        dir,
        e.size,
        rfc3339_text(e.modified_secs, e.modified_nanos),
    )
}

/// A directory entry is described with its own name, its name adjoined to
/// the directory as full name, the directory as path, its byte count as
/// size, that byte count in human-readable form, and its modification time.
pub proof fn lemma_entry_view_fields(dir: Seq<char>, e: DirEntry)
    ensures
        ({
            let f = entry_view(dir, e);
            &&& f.name == e.name@
            &&& f.fullname == joined(dir, e.name@)
            &&& f.path == dir
            &&& f.size == e.size
            &&& f.size_string == size_text(e.size as nat)
            &&& f.last_modified == rfc3339_text(e.modified_secs, e.modified_nanos)
            &&& f.extension == extension_text(e.name@)
            &&& !f.is_directory
        }),
{
}

/// The descriptions of the regular files among `es`, in their order.
pub open spec fn regular_files(dir: Seq<char>, es: Seq<DirEntry>) -> Seq<FileInfoView>
    decreases es.len(),
{
    if es.len() == 0 {
        Seq::empty()
    } else if es.last().is_file {
        regular_files(dir, es.drop_last()).push(entry_view(dir, es.last()))
    } else {
        regular_files(dir, es.drop_last())
    }
}

/// Every regular file among `es` has a modification time that can be written.
pub open spec fn times_writable(es: Seq<DirEntry>) -> bool {
    forall|i: int|
        0 <= i < es.len() && #[trigger] es[i].is_file ==> writable_time(
            es[i].modified_secs,
            es[i].modified_nanos,
        )
}

/// Describes the regular file `e` of directory `dir`.
pub fn listed_file(dir: &str, e: &DirEntry) -> (f: FileInfo)
    requires
        writable_time(e.modified_secs, e.modified_nanos),
    ensures
        f@ == entry_view(dir@, *e),
{
    file_info(
        join_path(dir, e.name.as_str()),
        e.name.clone(),
        extension_of(e.name.as_str()),
        String::from_str(dir),
        e.size,
        modified_text(e.modified_secs, e.modified_nanos),
    )
}

/// The listing of directory `dir` with entries `entries`: its regular files
/// described, each once, newest first; files modified at the same time keep
/// the order of the entries.
pub fn list_entries(dir: &str, entries: &Vec<DirEntry>) -> (r: Vec<FileInfo>)
    requires
        times_writable(entries@),
    ensures
        newest_first(file_views(r@)),
        same_files_per_time(file_views(r@), regular_files(dir@, entries@)),
        file_views(r@).to_multiset() == regular_files(dir@, entries@).to_multiset(),
        r@.len() == regular_files(dir@, entries@).len(),
{
    let mut files: Vec<FileInfo> = Vec::new();
    let mut i: usize = 0;
    while i < entries.len()
        invariant
            i <= entries@.len(),
            times_writable(entries@),
            file_views(files@) == regular_files(dir@, entries@.subrange(0, i as int)),
        decreases entries.len() - i,
    {
        let ghost before = file_views(files@);
        let ghost s1 = entries@.subrange(0, i + 1);
        assert(s1.drop_last() =~= entries@.subrange(0, i as int));
        assert(s1.last() == entries@[i as int]);
        if entries[i].is_file {
            let f = listed_file(dir, &entries[i]);
            files.push(f);
            assert(file_views(files@) =~= before.push(f@));
        }
        i = i + 1;
    }
    assert(entries@.subrange(0, entries@.len() as int) =~= entries@);
    sort_newest_first(files)
}

} // verus!

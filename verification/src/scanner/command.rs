//! The command line of a scan.

use vstd::prelude::*;
use crate::number::{
    Number, is_digit_char, lemma_decimal_starts_with_digit, lemma_number_text_starts, number_view_text,
};
use crate::scanner::{ScanParams, ScanParamsView};
use crate::text::{decimal, signed_decimal, push_decimal, push_signed_decimal, text_equals};

verus! {

/// The models of a sequence of strings.
pub open spec fn texts(v: Seq<String>) -> Seq<Seq<char>> {
    v.map_values(|s: String| s@)
}

/// `flag` followed by `value`, when there is a value.
pub open spec fn flag_with(flag: Seq<char>, value: Option<Seq<char>>) -> Seq<Seq<char>> {
    match value {
        Some(v) => seq![flag, v],
        None => Seq::empty(),
    }
}

/// The text of an optional number.
pub open spec fn number_arg(n: Option<crate::number::NumberView>) -> Option<Seq<char>> {
    match n {
        Some(v) => Some(number_view_text(v)),
        None => None,
    }
}

/// The text of an optional signed whole number.
pub open spec fn integer_arg(n: Option<i32>) -> Option<Seq<char>> {
    match n {
        Some(v) => Some(signed_decimal(v as int)),
        None => None,
    }
}

/// The mode is line art.
pub open spec fn is_lineart(p: ScanParamsView) -> bool {
    p.mode == Some("Lineart"@)
}

/// The picture settings of a scan: source, mode, gamma and colour
/// settings when given, then the resolution.
pub open spec fn scan_picture_settings(p: ScanParamsView) -> Seq<Seq<char>> {
    flag_with("--source"@, p.source)
        + flag_with("--mode"@, p.mode)
        + flag_with("--gamma-correction"@, p.gamma_correction)
        + flag_with("--color-correction"@, p.color_correction)
        + flag_with("--color-space"@, p.color_space)
        + seq!["--resolution"@, decimal(p.resolution as nat)]
}

/// The scan area, each edge when given: left, top, width, height.
pub open spec fn scan_area_settings(p: ScanParamsView) -> Seq<Seq<char>> {
    flag_with("-l"@, number_arg(p.left))
        + flag_with("-t"@, number_arg(p.top))
        + flag_with("-x"@, number_arg(p.width))
        + flag_with("-y"@, number_arg(p.height))
}

/// The contrast, given when the client gave one and the mode is not line art.
pub open spec fn contrast_setting(p: ScanParamsView) -> Seq<Seq<char>> {
    if is_lineart(p) {
        Seq::empty()
    } else {
        flag_with("--contrast"@, integer_arg(p.contrast))
    }
}

/// In line art, the switch that turns off dynamic line art when the client
/// turned it off.
pub open spec fn lineart_setting(p: ScanParamsView) -> Seq<Seq<char>> {
    if is_lineart(p) && p.dynamic_lineart == Some(false) {
        seq!["--disable-dynamic-lineart=yes"@]
    } else {
        Seq::empty()
    }
}

/// The output settings of a scan: format, depth and brightness when given,
/// then the contrast and line-art settings.
pub open spec fn scan_output_settings(p: ScanParamsView) -> Seq<Seq<char>> {
    flag_with("--format"@, p.format)
        + flag_with("--depth"@, p.depth)
        + flag_with("--brightness"@, integer_arg(p.brightness))
        + contrast_setting(p)
        + lineart_setting(p)
}

/// The settings part of a scan's arguments.
pub open spec fn scan_settings(p: ScanParamsView) -> Seq<Seq<char>> {
    scan_picture_settings(p) + scan_area_settings(p) + scan_output_settings(p)
}

/// How a scan's arguments end: `--preview` for a preview, else `-o output`.
pub open spec fn scan_output(p: ScanParamsView) -> Seq<Seq<char>> {
    if p.is_preview == Some(true) {
        seq!["--preview"@]
    } else {
        seq!["-o"@, "output"@]
    }
}

/// The arguments of a scan: the program, `-d` and the device, the
/// settings, and the output.
pub open spec fn scan_command(base: Seq<char>, p: ScanParamsView) -> Seq<Seq<char>> {
    seq![base, "-d"@, p.device_id] + scan_settings(p) + scan_output(p)
}

/// The value given after the first `flag` in the arguments `c`, if any.
pub open spec fn value_after(c: Seq<Seq<char>>, flag: Seq<char>) -> Option<Seq<char>>
    decreases c.len(),
{
    if c.len() < 2 {
        None
    } else if c[0] == flag {
        Some(c[1])
    } else {
        value_after(c.drop_first(), flag)
    }
}

/// One of the flags of the scan area: `-l`, `-t`, `-x`, `-y`.
pub open spec fn is_area_flag(s: Seq<char>) -> bool {
    s == "-l"@ || s == "-t"@ || s == "-x"@ || s == "-y"@
}

/// No argument of `c` is a flag of the scan area.
pub open spec fn no_area_flag(c: Seq<Seq<char>>) -> bool {
    forall|i: int| 0 <= i < c.len() ==> !is_area_flag(#[trigger] c[i])
}

/// An optional text that is not a flag of the scan area.
pub open spec fn plain_text(o: Option<Seq<char>>) -> bool {
    match o {
        Some(t) => !is_area_flag(t),
        None => true,
    }
}

/// Arguments before which `flag` does not occur do not change what follows it.
proof fn lemma_value_after_skip(a: Seq<Seq<char>>, b: Seq<Seq<char>>, flag: Seq<char>)
    requires
        forall|i: int| 0 <= i < a.len() ==> a[i] != flag,
    ensures
        value_after(a + b, flag) == value_after(b, flag),
    decreases a.len(),
{
    if a.len() == 0 {
        assert(a + b =~= b);
    } else {
        let ab = a + b;
        assert(ab[0] == a[0]);
        if ab.len() >= 2 {
            assert(ab.drop_first() =~= a.drop_first() + b);
            assert forall|i: int| 0 <= i < a.drop_first().len() implies a.drop_first()[i] != flag by {
                assert(a.drop_first()[i] == a[i + 1]);
            }
            lemma_value_after_skip(a.drop_first(), b, flag);
        } else {
            assert(b.len() == 0);
        }
    }
}

/// A text that starts with a digit, or with `-` and a digit, is no flag of
/// the scan area.
proof fn lemma_digits_are_not_area_flags(s: Seq<char>)
    requires
        (s.len() > 0 && is_digit_char(s[0])) || (s.len() > 1 && is_digit_char(s[1])),
    ensures
        !is_area_flag(s),
{
    reveal_strlit("-l");
    reveal_strlit("-t");
    reveal_strlit("-x");
    reveal_strlit("-y");
}

proof fn lemma_no_area_flag_add(a: Seq<Seq<char>>, b: Seq<Seq<char>>)
    requires
        no_area_flag(a),
        no_area_flag(b),
    ensures
        no_area_flag(a + b),
{
    assert forall|i: int| 0 <= i < (a + b).len() implies !is_area_flag(#[trigger] (a + b)[i]) by {
        if i < a.len() {
            assert((a + b)[i] == a[i]);
        } else {
            assert((a + b)[i] == b[i - a.len()]);
        }
    }
}

/// `flag` does not occur in `c`.
pub open spec fn lacks(c: Seq<Seq<char>>, flag: Seq<char>) -> bool {
    forall|i: int| 0 <= i < c.len() ==> #[trigger] c[i] != flag
}

proof fn lemma_lacks_add(a: Seq<Seq<char>>, b: Seq<Seq<char>>, flag: Seq<char>)
    requires
        lacks(a, flag),
        lacks(b, flag),
    ensures
        lacks(a + b, flag),
{
    assert forall|i: int| 0 <= i < (a + b).len() implies #[trigger] (a + b)[i] != flag by {
        if i < a.len() {
            assert((a + b)[i] == a[i]);
        } else {
            assert((a + b)[i] == b[i - a.len()]);
        }
    }
}

/// One area flag with its value holds no other area flag.
proof fn lemma_other_area_flag(f: Seq<char>, g: Seq<char>, v: Option<Seq<char>>)
    requires
        is_area_flag(f),
        is_area_flag(g),
        f != g,
        plain_text(v),
    ensures
        lacks(flag_with(f, v), g),
{
}

/// A text of any length but two is no flag of the scan area.
proof fn lemma_not_two_long(s: Seq<char>)
    requires
        s.len() != 2,
    ensures
        !is_area_flag(s),
{
    reveal_strlit("-l");
    reveal_strlit("-t");
    reveal_strlit("-x");
    reveal_strlit("-y");
}

proof fn lemma_flag_with_plain(flag: Seq<char>, v: Option<Seq<char>>)
    requires
        !is_area_flag(flag),
        plain_text(v),
    ensures
        no_area_flag(flag_with(flag, v)),
{
}

/// The text of a well-formed optional number is no flag of the scan area.
proof fn lemma_number_arg_plain(n: Option<Number>)
    requires
        crate::scanner::opt_number_well_formed(n),
    ensures
        plain_text(number_arg(crate::scanner::opt_number(n))),
{
    if let Some(x) = n {
        lemma_number_text_starts(x@);
        lemma_digits_are_not_area_flags(number_view_text(x@));
    }
}

/// The text of an optional whole number is no flag of the scan area.
proof fn lemma_integer_arg_plain(n: Option<i32>)
    ensures
        plain_text(integer_arg(n)),
{
    if let Some(v) = n {
        if v < 0 {
            lemma_decimal_starts_with_digit((-v) as nat);
            let t = signed_decimal(v as int);
            assert(t[1] == decimal((-v) as nat)[0]);
            lemma_digits_are_not_area_flags(t);
        } else {
            lemma_decimal_starts_with_digit(v as nat);
            lemma_digits_are_not_area_flags(signed_decimal(v as int));
        }
    }
}

/// No argument outside the scan area is one of its flags, as long as the
/// program and the texts of the request are none.
proof fn lemma_settings_without_area_flags(base: Seq<char>, params: ScanParams)
    requires
        area_flags_unused(base, params@),
    ensures
        no_area_flag(seq![base, "-d"@, params@.device_id] + scan_picture_settings(params@)),
        no_area_flag(scan_output_settings(params@) + scan_output(params@)),
{
    let p = params@;
    reveal_strlit("-l");
    reveal_strlit("-t");
    reveal_strlit("-x");
    reveal_strlit("-y");
    reveal_strlit("-d");
    reveal_strlit("--source");
    reveal_strlit("--mode");
    reveal_strlit("--gamma-correction");
    reveal_strlit("--color-correction");
    reveal_strlit("--color-space");
    reveal_strlit("--resolution");
    reveal_strlit("--format");
    reveal_strlit("--depth");
    reveal_strlit("--brightness");
    reveal_strlit("--contrast");
    reveal_strlit("--disable-dynamic-lineart=yes");
    reveal_strlit("--preview");
    reveal_strlit("-o");
    reveal_strlit("output");
    lemma_decimal_starts_with_digit(p.resolution as nat);
    lemma_digits_are_not_area_flags(decimal(p.resolution as nat));
    assert(!is_area_flag("-d"@)) by {
        assert("-d"@[1] == 'd');
    }
    assert(!is_area_flag("-o"@)) by {
        assert("-o"@[1] == 'o');
    }
    lemma_not_two_long("--source"@);
    lemma_not_two_long("--mode"@);
    lemma_not_two_long("--gamma-correction"@);
    lemma_not_two_long("--color-correction"@);
    lemma_not_two_long("--color-space"@);
    lemma_not_two_long("--resolution"@);
    lemma_not_two_long("--format"@);
    lemma_not_two_long("--depth"@);
    lemma_not_two_long("--brightness"@);
    lemma_not_two_long("--contrast"@);
    lemma_not_two_long("--disable-dynamic-lineart=yes"@);
    lemma_not_two_long("--preview"@);
    lemma_not_two_long("output"@);
    let head = seq![base, "-d"@, p.device_id];
    assert forall|i: int| 0 <= i < head.len() implies !is_area_flag(#[trigger] head[i]) by {
        if i == 1 {
            assert(head[1] == "-d"@);
        }
    }
    lemma_flag_with_plain("--source"@, p.source);
    lemma_flag_with_plain("--mode"@, p.mode);
    lemma_flag_with_plain("--gamma-correction"@, p.gamma_correction);
    lemma_flag_with_plain("--color-correction"@, p.color_correction);
    lemma_flag_with_plain("--color-space"@, p.color_space);
    let res = seq!["--resolution"@, decimal(p.resolution as nat)];
    assert(no_area_flag(res));
    let a1 = flag_with("--source"@, p.source);
    let a2 = a1 + flag_with("--mode"@, p.mode);
    let a3 = a2 + flag_with("--gamma-correction"@, p.gamma_correction);
    let a4 = a3 + flag_with("--color-correction"@, p.color_correction);
    let a5 = a4 + flag_with("--color-space"@, p.color_space);
    lemma_no_area_flag_add(a1, flag_with("--mode"@, p.mode));
    lemma_no_area_flag_add(a2, flag_with("--gamma-correction"@, p.gamma_correction));
    lemma_no_area_flag_add(a3, flag_with("--color-correction"@, p.color_correction));
    lemma_no_area_flag_add(a4, flag_with("--color-space"@, p.color_space));
    lemma_no_area_flag_add(a5, res);
    lemma_no_area_flag_add(head, scan_picture_settings(p));
    lemma_integer_arg_plain(p.brightness);
    lemma_integer_arg_plain(p.contrast);
    lemma_flag_with_plain("--format"@, p.format);
    lemma_flag_with_plain("--depth"@, p.depth);
    lemma_flag_with_plain("--brightness"@, integer_arg(p.brightness));
    lemma_flag_with_plain("--contrast"@, integer_arg(p.contrast));
    let b1 = flag_with("--format"@, p.format);
    let b2 = b1 + flag_with("--depth"@, p.depth);
    let b3 = b2 + flag_with("--brightness"@, integer_arg(p.brightness));
    let b4 = b3 + contrast_setting(p);
    assert(no_area_flag(contrast_setting(p)));
    assert(no_area_flag(lineart_setting(p))) by {
        if is_lineart(p) && p.dynamic_lineart == Some(false) {
            assert(lineart_setting(p)[0] == "--disable-dynamic-lineart=yes"@);
        }
    }
    assert(no_area_flag(scan_output(p))) by {
        if p.is_preview == Some(true) {
            assert(scan_output(p)[0] == "--preview"@);
        } else {
            assert forall|i: int| 0 <= i < 2 implies !is_area_flag(#[trigger] scan_output(p)[i]) by {
                if i == 0 {
                    assert(scan_output(p)[0] == "-o"@);
                } else {
                    assert(scan_output(p)[1] == "output"@);
                }
            }
        }
    }
    lemma_no_area_flag_add(b1, flag_with("--depth"@, p.depth));
    lemma_no_area_flag_add(b2, flag_with("--brightness"@, integer_arg(p.brightness)));
    lemma_no_area_flag_add(b3, contrast_setting(p));
    lemma_no_area_flag_add(b4, lineart_setting(p));
    lemma_no_area_flag_add(scan_output_settings(p), scan_output(p));
}

/// The program and every text the request gives (device, source, mode,
/// gamma, colour correction, colour space, format, depth) differ from the
/// flags of the scan area.
pub open spec fn area_flags_unused(base: Seq<char>, p: ScanParamsView) -> bool {
    &&& !is_area_flag(base)
    &&& !is_area_flag(p.device_id)
    &&& plain_text(p.source)
    &&& plain_text(p.mode)
    &&& plain_text(p.gamma_correction)
    &&& plain_text(p.color_correction)
    &&& plain_text(p.color_space)
    &&& plain_text(p.format)
    &&& plain_text(p.depth)
}

/// `flag`, once found after arguments without it, gives `v`; absent, it gives nothing.
proof fn lemma_lookup_area(
    pre: Seq<Seq<char>>,
    flag: Seq<char>,
    v: Option<Seq<char>>,
    post: Seq<Seq<char>>,
)
    requires
        forall|i: int| 0 <= i < pre.len() ==> pre[i] != flag,
        forall|i: int| 0 <= i < post.len() ==> post[i] != flag,
    ensures
        value_after(pre + flag_with(flag, v) + post, flag) == v,
{
    assert(pre + flag_with(flag, v) + post =~= pre + (flag_with(flag, v) + post));
    lemma_value_after_skip(pre, flag_with(flag, v) + post, flag);
    match v {
        Some(x) => {
            let c = flag_with(flag, v) + post;
            assert(c[0] == flag && c[1] == x);
        },
        None => {
            assert(flag_with(flag, v) + post =~= post + Seq::<Seq<char>>::empty());
            lemma_value_after_skip(post, Seq::<Seq<char>>::empty(), flag);
        },
    }
}

/// The arguments before the scan area and those after it hold no area flag,
/// and the area's values are no area flags either.
proof fn lemma_area_parts(base: Seq<char>, params: ScanParams)
    requires
        params.well_formed(),
        area_flags_unused(base, params@),
    ensures
        forall|f: Seq<char>|
            #[trigger] is_area_flag(f) ==> lacks(
                seq![base, "-d"@, params@.device_id] + scan_picture_settings(params@),
                f,
            ) && lacks(scan_output_settings(params@) + scan_output(params@), f),
        plain_text(number_arg(params@.left)),
        plain_text(number_arg(params@.top)),
        plain_text(number_arg(params@.width)),
        plain_text(number_arg(params@.height)),
        "-l"@ != "-t"@ && "-l"@ != "-x"@ && "-l"@ != "-y"@ && "-t"@ != "-x"@ && "-t"@ != "-y"@ && "-x"@
            != "-y"@,
        is_area_flag("-l"@) && is_area_flag("-t"@) && is_area_flag("-x"@) && is_area_flag("-y"@),
{
    let p = params@;
    lemma_settings_without_area_flags(base, params);
    lemma_number_arg_plain(params.left);
    lemma_number_arg_plain(params.top);
    lemma_number_arg_plain(params.width);
    lemma_number_arg_plain(params.height);
    let pre = seq![base, "-d"@, p.device_id] + scan_picture_settings(p);
    let post = scan_output_settings(p) + scan_output(p);
    assert forall|f: Seq<char>| #[trigger] is_area_flag(f) implies lacks(pre, f) && lacks(post, f) by {
        assert forall|i: int| 0 <= i < pre.len() implies #[trigger] pre[i] != f by {
            assert(!is_area_flag(pre[i]));
        }
        assert forall|i: int| 0 <= i < post.len() implies #[trigger] post[i] != f by {
            assert(!is_area_flag(post[i]));
        }
    }
    reveal_strlit("-l");
    reveal_strlit("-t");
    reveal_strlit("-x");
    reveal_strlit("-y");
    assert("-l"@[1] == 'l' && "-t"@[1] == 't' && "-x"@[1] == 'x' && "-y"@[1] == 'y');
}

/// Between arguments that hold no area flag, the four area flags with their
/// values each give back their own value.
proof fn lemma_area_lookup(
    pre: Seq<Seq<char>>,
    lv: Option<Seq<char>>,
    tv: Option<Seq<char>>,
    xv: Option<Seq<char>>,
    yv: Option<Seq<char>>,
    post: Seq<Seq<char>>,
)
    requires
        forall|f: Seq<char>| #[trigger] is_area_flag(f) ==> lacks(pre, f) && lacks(post, f),
        plain_text(lv),
        plain_text(tv),
        plain_text(xv),
        plain_text(yv),
        "-l"@ != "-t"@ && "-l"@ != "-x"@ && "-l"@ != "-y"@ && "-t"@ != "-x"@ && "-t"@ != "-y"@ && "-x"@
            != "-y"@,
        is_area_flag("-l"@) && is_area_flag("-t"@) && is_area_flag("-x"@) && is_area_flag("-y"@),
    ensures
        ({
            let c = pre + flag_with("-l"@, lv) + flag_with("-t"@, tv) + flag_with("-x"@, xv) + flag_with(
                "-y"@,
                yv,
            ) + post;
            &&& value_after(c, "-l"@) == lv
            &&& value_after(c, "-t"@) == tv
            &&& value_after(c, "-x"@) == xv
            &&& value_after(c, "-y"@) == yv
        }),
{
    let l = flag_with("-l"@, lv);
    let t = flag_with("-t"@, tv);
    let x = flag_with("-x"@, xv);
    let y = flag_with("-y"@, yv);
    let c = pre + l + t + x + y + post;
    assert(value_after(c, "-l"@) == lv) by {
        assert(lacks(pre, "-l"@) && lacks(post, "-l"@));
        lemma_other_area_flag("-t"@, "-l"@, tv);
        lemma_other_area_flag("-x"@, "-l"@, xv);
        lemma_other_area_flag("-y"@, "-l"@, yv);
        lemma_lacks_add(t, x, "-l"@);
        lemma_lacks_add(t + x, y, "-l"@);
        lemma_lacks_add(t + x + y, post, "-l"@);
        assert(c =~= pre + l + (t + x + y + post));
        lemma_lookup_area(pre, "-l"@, lv, t + x + y + post);
    }
    assert(value_after(c, "-t"@) == tv) by {
        assert(lacks(pre, "-t"@) && lacks(post, "-t"@));
        lemma_other_area_flag("-l"@, "-t"@, lv);
        lemma_other_area_flag("-x"@, "-t"@, xv);
        lemma_other_area_flag("-y"@, "-t"@, yv);
        lemma_lacks_add(pre, l, "-t"@);
        lemma_lacks_add(x, y, "-t"@);
        lemma_lacks_add(x + y, post, "-t"@);
        assert(c =~= (pre + l) + t + (x + y + post));
        lemma_lookup_area(pre + l, "-t"@, tv, x + y + post);
    }
    assert(value_after(c, "-x"@) == xv) by {
        assert(lacks(pre, "-x"@) && lacks(post, "-x"@));
        lemma_other_area_flag("-l"@, "-x"@, lv);
        lemma_other_area_flag("-t"@, "-x"@, tv);
        lemma_other_area_flag("-y"@, "-x"@, yv);
        lemma_lacks_add(pre, l, "-x"@);
        lemma_lacks_add(pre + l, t, "-x"@);
        lemma_lacks_add(y, post, "-x"@);
        assert(c =~= (pre + l + t) + x + (y + post));
        lemma_lookup_area(pre + l + t, "-x"@, xv, y + post);
    }
    assert(value_after(c, "-y"@) == yv) by {
        assert(lacks(pre, "-y"@) && lacks(post, "-y"@));
        lemma_other_area_flag("-l"@, "-y"@, lv);
        lemma_other_area_flag("-t"@, "-y"@, tv);
        lemma_other_area_flag("-x"@, "-y"@, xv);
        lemma_lacks_add(pre, l, "-y"@);
        lemma_lacks_add(pre + l, t, "-y"@);
        lemma_lacks_add(pre + l + t, x, "-y"@);
        lemma_lookup_area(pre + l + t + x, "-y"@, yv, post);
    }
}

/// In the command of a scan, the value after `-l` is the text of the
/// request's left edge, after `-t` that of its top edge, after `-x` that of
/// its width and after `-y` that of its height; a flag whose edge the
/// request leaves out does not occur. This holds whenever the program and
/// the request's texts are not themselves such flags.
pub proof fn lemma_area_flags(base: Seq<char>, params: ScanParams)
    requires
        params.well_formed(),
        area_flags_unused(base, params@),
    ensures
        value_after(scan_command(base, params@), "-l"@) == match params@.left {
            Some(v) => Some(number_view_text(v)),
            None => None,
        },
        value_after(scan_command(base, params@), "-t"@) == match params@.top {
            Some(v) => Some(number_view_text(v)),
            None => None,
        },
        value_after(scan_command(base, params@), "-x"@) == match params@.width {
            Some(v) => Some(number_view_text(v)),
            None => None,
        },
        value_after(scan_command(base, params@), "-y"@) == match params@.height {
            Some(v) => Some(number_view_text(v)),
            None => None,
        },
{
    let p = params@;
    lemma_area_parts(base, params);
    let pre = seq![base, "-d"@, p.device_id] + scan_picture_settings(p);
    let post = scan_output_settings(p) + scan_output(p);
    lemma_area_lookup(pre, number_arg(p.left), number_arg(p.top), number_arg(p.width), number_arg(p.height), post);
    let l = flag_with("-l"@, number_arg(p.left));
    let t = flag_with("-t"@, number_arg(p.top));
    let x = flag_with("-x"@, number_arg(p.width));
    let y = flag_with("-y"@, number_arg(p.height));
    let head = seq![base, "-d"@, p.device_id];
    assert(scan_area_settings(p) == l + t + x + y);
    assert(scan_command(base, p) == head + (scan_picture_settings(p) + scan_area_settings(p)
        + scan_output_settings(p)) + scan_output(p));
    lemma_regroup(
        head,
        scan_picture_settings(p),
        l,
        t,
        x,
        y,
        scan_output_settings(p),
        scan_output(p),
    );
}

proof fn lemma_regroup(
    h: Seq<Seq<char>>,
    a: Seq<Seq<char>>,
    l: Seq<Seq<char>>,
    t: Seq<Seq<char>>,
    x: Seq<Seq<char>>,
    y: Seq<Seq<char>>,
    b: Seq<Seq<char>>,
    o: Seq<Seq<char>>,
)
    ensures
        h + (a + (l + t + x + y) + b) + o == (h + a) + l + t + x + y + (b + o),
{
    assert(h + (a + (l + t + x + y) + b) + o =~= (h + a) + l + t + x + y + (b + o));
}

/// The flags a scan command gives values to: the device and each setting.
pub open spec fn setting_flags() -> Seq<Seq<char>> {
    Seq::empty().push("-d"@).push("--source"@).push("--mode"@).push("--gamma-correction"@).push(
        "--color-correction"@,
    ).push("--color-space"@).push("--resolution"@).push("-l"@).push("-t"@).push("-x"@).push(
        "-y"@,
    ).push("--format"@).push("--depth"@).push("--brightness"@).push("--contrast"@)
}

/// `s` is one of the [`setting_flags`].
pub open spec fn is_setting_flag(s: Seq<char>) -> bool {
    setting_flags().contains(s)
}

/// An optional text that is none of the [`setting_flags`].
pub open spec fn plain_value(o: Option<Seq<char>>) -> bool {
    match o {
        Some(t) => !is_setting_flag(t),
        None => true,
    }
}

/// The program and every text the request gives (device, source, mode,
/// gamma, colour correction, colour space, format, depth) differ from the
/// [`setting_flags`].
pub open spec fn flags_unused(base: Seq<char>, p: ScanParamsView) -> bool {
    &&& !is_setting_flag(base)
    &&& !is_setting_flag(p.device_id)
    &&& plain_value(p.source)
    &&& plain_value(p.mode)
    &&& plain_value(p.gamma_correction)
    &&& plain_value(p.color_correction)
    &&& plain_value(p.color_space)
    &&& plain_value(p.format)
    &&& plain_value(p.depth)
}

/// The flags with their values, one after another.
pub open spec fn spell(ps: Seq<(Seq<char>, Option<Seq<char>>)>) -> Seq<Seq<char>>
    decreases ps.len(),
{
    if ps.len() == 0 {
        Seq::empty()
    } else {
        spell(ps.drop_last()) + flag_with(ps.last().0, ps.last().1)
    }
}

proof fn lemma_spell_push(ps: Seq<(Seq<char>, Option<Seq<char>>)>, q: (Seq<char>, Option<Seq<char>>))
    ensures
        spell(ps.push(q)) == spell(ps) + flag_with(q.0, q.1),
{
    assert(ps.push(q).drop_last() =~= ps);
}

proof fn lemma_spell_add(a: Seq<(Seq<char>, Option<Seq<char>>)>, b: Seq<(Seq<char>, Option<Seq<char>>)>)
    ensures
        spell(a + b) == spell(a) + spell(b),
    decreases b.len(),
{
    if b.len() == 0 {
        assert(a + b =~= a);
        assert(spell(a) + spell(b) =~= spell(a));
    } else {
        lemma_spell_add(a, b.drop_last());
        assert((a + b).drop_last() =~= a + b.drop_last());
        assert((a + b).last() == b.last());
        assert(spell(a) + spell(b.drop_last()) + flag_with(b.last().0, b.last().1) =~= spell(a) + (spell(
            b.drop_last(),
        ) + flag_with(b.last().0, b.last().1)));
    }
}

/// Flags other than `f`, with values other than `f`, spell no `f`.
proof fn lemma_spell_lacks(ps: Seq<(Seq<char>, Option<Seq<char>>)>, f: Seq<char>)
    requires
        forall|j: int| 0 <= j < ps.len() ==> #[trigger] ps[j].0 != f && ps[j].1 != Some(f),
    ensures
        lacks(spell(ps), f),
    decreases ps.len(),
{
    if ps.len() > 0 {
        let q = ps.last();
        assert(ps[ps.len() - 1] == q);
        assert forall|j: int| 0 <= j < ps.drop_last().len() implies #[trigger] ps.drop_last()[j].0 != f
            && ps.drop_last()[j].1 != Some(f) by {
            assert(ps.drop_last()[j] == ps[j]);
        }
        lemma_spell_lacks(ps.drop_last(), f);
        lemma_lacks_add(spell(ps.drop_last()), flag_with(q.0, q.1), f);
    }
}

/// Among flags that are distinct and values that are no flag, each flag
/// gives back its own value, whatever stands around them without it.
proof fn lemma_lookup_spelled(
    pre: Seq<Seq<char>>,
    ps: Seq<(Seq<char>, Option<Seq<char>>)>,
    post: Seq<Seq<char>>,
    i: int,
)
    requires
        0 <= i < ps.len(),
        lacks(pre, ps[i].0),
        lacks(post, ps[i].0),
        forall|j: int| 0 <= j < ps.len() && j != i ==> #[trigger] ps[j].0 != ps[i].0,
        forall|j: int| 0 <= j < ps.len() ==> #[trigger] ps[j].1 != Some(ps[i].0),
    ensures
        value_after(pre + spell(ps) + post, ps[i].0) == ps[i].1,
{
    let f = ps[i].0;
    let a = ps.take(i);
    let b = ps.skip(i + 1);
    assert(ps =~= a + seq![ps[i]] + b);
    lemma_spell_add(a + seq![ps[i]], b);
    lemma_spell_add(a, seq![ps[i]]);
    lemma_spell_push(Seq::empty(), ps[i]);
    assert(seq![ps[i]] =~= Seq::<(Seq<char>, Option<Seq<char>>)>::empty().push(ps[i]));
    assert(spell(Seq::<(Seq<char>, Option<Seq<char>>)>::empty()) =~= Seq::<Seq<char>>::empty());
    assert(spell(seq![ps[i]]) =~= flag_with(f, ps[i].1));
    assert forall|j: int| 0 <= j < a.len() implies #[trigger] a[j].0 != f && a[j].1 != Some(f) by {
        assert(a[j] == ps[j]);
    }
    assert forall|j: int| 0 <= j < b.len() implies #[trigger] b[j].0 != f && b[j].1 != Some(f) by {
        assert(b[j] == ps[i + 1 + j]);
    }
    lemma_spell_lacks(a, f);
    lemma_spell_lacks(b, f);
    lemma_lacks_add(pre, spell(a), f);
    lemma_lacks_add(spell(b), post, f);
    assert(pre + spell(ps) + post =~= (pre + spell(a)) + flag_with(f, ps[i].1) + (spell(b) + post));
    lemma_lookup_area(pre + spell(a), f, ps[i].1, spell(b) + post);
}

/// No two of the [`setting_flags`] are the same, and each starts with `-`
/// followed by a character that is no digit.
proof fn lemma_setting_flags_shape()
    ensures
        forall|i: int, j: int|
            0 <= i < j < setting_flags().len() ==> #[trigger] setting_flags()[i] != #[trigger] setting_flags()[j],
        forall|i: int|
            0 <= i < setting_flags().len() ==> (#[trigger] setting_flags()[i]).len() >= 2
                && setting_flags()[i][0] == '-' && !is_digit_char(setting_flags()[i][1]),
        setting_flags().len() == 15,
{
    reveal_strlit("-d");
    reveal_strlit("--source");
    reveal_strlit("--mode");
    reveal_strlit("--gamma-correction");
    reveal_strlit("--color-correction");
    reveal_strlit("--color-space");
    reveal_strlit("--resolution");
    reveal_strlit("-l");
    reveal_strlit("-t");
    reveal_strlit("-x");
    reveal_strlit("-y");
    reveal_strlit("--format");
    reveal_strlit("--depth");
    reveal_strlit("--brightness");
    reveal_strlit("--contrast");
    let fs = setting_flags();
    assert forall|i: int, j: int| 0 <= i < j < fs.len() implies #[trigger] fs[i] != #[trigger] fs[j] by {
        let a = fs[i];
        let b = fs[j];
        if a.len() == b.len() {
            if a.len() == 2 {
                assert(a[1] != b[1]);
            } else if a.len() == 8 {
                assert(a[2] != b[2]);
            } else if a.len() == 12 {
                assert(a[2] != b[2]);
            } else {
                assert(a[2] != b[2]);
            }
        }
    }
}

/// A text that starts with a digit, or with `-` and a digit, is none of the
/// [`setting_flags`].
proof fn lemma_numeric_not_flag(s: Seq<char>)
    requires
        (s.len() > 0 && is_digit_char(s[0])) || (s.len() > 1 && s[0] == '-' && is_digit_char(s[1])),
    ensures
        !is_setting_flag(s),
{
    lemma_setting_flags_shape();
    if is_setting_flag(s) {
        let k = choose|k: int| 0 <= k < setting_flags().len() && setting_flags()[k] == s;
        assert(setting_flags()[k][0] == '-');
    }
}

/// The flags of a scan's settings with their values, in command order.
pub open spec fn setting_pairs(p: ScanParamsView) -> Seq<(Seq<char>, Option<Seq<char>>)> {
    Seq::empty().push(("--source"@, p.source)).push(("--mode"@, p.mode)).push(
        ("--gamma-correction"@, p.gamma_correction),
    ).push(("--color-correction"@, p.color_correction)).push(("--color-space"@, p.color_space)).push(
        ("--resolution"@, Some(decimal(p.resolution as nat))),
    ).push(("-l"@, number_arg(p.left))).push(("-t"@, number_arg(p.top))).push(
        ("-x"@, number_arg(p.width)),
    ).push(("-y"@, number_arg(p.height))).push(("--format"@, p.format)).push(("--depth"@, p.depth)).push(
        ("--brightness"@, integer_arg(p.brightness)),
    ).push(("--contrast"@, if is_lineart(p) { None } else { integer_arg(p.contrast) }))
}

/// The command of a scan is the program, `-d` and the device, the settings
/// spelled as flags with values, and what ends it.
proof fn lemma_command_spelled(base: Seq<char>, p: ScanParamsView)
    ensures
        scan_command(base, p) == seq![base, "-d"@, p.device_id] + spell(setting_pairs(p)) + (
        lineart_setting(p) + scan_output(p)),
{
    let e = Seq::<(Seq<char>, Option<Seq<char>>)>::empty();
    let q0 = e.push(("--source"@, p.source));
    let q1 = q0.push(("--mode"@, p.mode));
    let q2 = q1.push(("--gamma-correction"@, p.gamma_correction));
    let q3 = q2.push(("--color-correction"@, p.color_correction));
    let q4 = q3.push(("--color-space"@, p.color_space));
    let q5 = q4.push(("--resolution"@, Some(decimal(p.resolution as nat))));
    let q6 = q5.push(("-l"@, number_arg(p.left)));
    let q7 = q6.push(("-t"@, number_arg(p.top)));
    let q8 = q7.push(("-x"@, number_arg(p.width)));
    let q9 = q8.push(("-y"@, number_arg(p.height)));
    let q10 = q9.push(("--format"@, p.format));
    let q11 = q10.push(("--depth"@, p.depth));
    let q12 = q11.push(("--brightness"@, integer_arg(p.brightness)));
    let q13 = q12.push(("--contrast"@, if is_lineart(p) { None } else { integer_arg(p.contrast) }));
    assert(spell(e) =~= Seq::<Seq<char>>::empty());
    lemma_spell_push(e, ("--source"@, p.source));
    lemma_spell_push(q0, ("--mode"@, p.mode));
    lemma_spell_push(q1, ("--gamma-correction"@, p.gamma_correction));
    lemma_spell_push(q2, ("--color-correction"@, p.color_correction));
    lemma_spell_push(q3, ("--color-space"@, p.color_space));
    lemma_spell_push(q4, ("--resolution"@, Some(decimal(p.resolution as nat))));
    lemma_spell_push(q5, ("-l"@, number_arg(p.left)));
    lemma_spell_push(q6, ("-t"@, number_arg(p.top)));
    lemma_spell_push(q7, ("-x"@, number_arg(p.width)));
    lemma_spell_push(q8, ("-y"@, number_arg(p.height)));
    lemma_spell_push(q9, ("--format"@, p.format));
    lemma_spell_push(q10, ("--depth"@, p.depth));
    lemma_spell_push(q11, ("--brightness"@, integer_arg(p.brightness)));
    lemma_spell_push(q12, ("--contrast"@, if is_lineart(p) { None } else { integer_arg(p.contrast) }));
    assert(setting_pairs(p) == q13);
    let f0 = flag_with("--source"@, p.source);
    let f1 = flag_with("--mode"@, p.mode);
    let f2 = flag_with("--gamma-correction"@, p.gamma_correction);
    let f3 = flag_with("--color-correction"@, p.color_correction);
    let f4 = flag_with("--color-space"@, p.color_space);
    let f5 = flag_with("--resolution"@, Some(decimal(p.resolution as nat)));
    let f6 = flag_with("-l"@, number_arg(p.left));
    let f7 = flag_with("-t"@, number_arg(p.top));
    let f8 = flag_with("-x"@, number_arg(p.width));
    let f9 = flag_with("-y"@, number_arg(p.height));
    let f10 = flag_with("--format"@, p.format);
    let f11 = flag_with("--depth"@, p.depth);
    let f12 = flag_with("--brightness"@, integer_arg(p.brightness));
    let f13 = flag_with("--contrast"@, if is_lineart(p) { None } else { integer_arg(p.contrast) });
    let ln = lineart_setting(p);
    let o = scan_output(p);
    let h = seq![base, "-d"@, p.device_id];
    assert(spell(q13) == Seq::<Seq<char>>::empty() + f0 + f1 + f2 + f3 + f4 + f5 + f6 + f7 + f8 + f9 + f10
        + f11 + f12 + f13);
    assert(scan_picture_settings(p) == f0 + f1 + f2 + f3 + f4 + f5);
    assert(scan_area_settings(p) == f6 + f7 + f8 + f9);
    assert(contrast_setting(p) == f13);
    assert(scan_output_settings(p) == f10 + f11 + f12 + f13 + ln);
    assert(scan_command(base, p) == h + (scan_picture_settings(p) + scan_area_settings(p)
        + scan_output_settings(p)) + o);
    lemma_regroup_settings(h, f0, f1, f2, f3, f4, f5, f6, f7, f8, f9, f10, f11, f12, f13, ln, o);
}

proof fn lemma_regroup_settings(
    h: Seq<Seq<char>>,
    f0: Seq<Seq<char>>,
    f1: Seq<Seq<char>>,
    f2: Seq<Seq<char>>,
    f3: Seq<Seq<char>>,
    f4: Seq<Seq<char>>,
    f5: Seq<Seq<char>>,
    f6: Seq<Seq<char>>,
    f7: Seq<Seq<char>>,
    f8: Seq<Seq<char>>,
    f9: Seq<Seq<char>>,
    f10: Seq<Seq<char>>,
    f11: Seq<Seq<char>>,
    f12: Seq<Seq<char>>,
    f13: Seq<Seq<char>>,
    ln: Seq<Seq<char>>,
    o: Seq<Seq<char>>,
)
    ensures
        h + ((f0 + f1 + f2 + f3 + f4 + f5) + (f6 + f7 + f8 + f9) + (f10 + f11 + f12 + f13 + ln)) + o == h
            + (Seq::<Seq<char>>::empty() + f0 + f1 + f2 + f3 + f4 + f5 + f6 + f7 + f8 + f9 + f10 + f11 + f12
            + f13) + (ln + o),
{
    assert(h + ((f0 + f1 + f2 + f3 + f4 + f5) + (f6 + f7 + f8 + f9) + (f10 + f11 + f12 + f13 + ln)) + o
        =~= h + (Seq::<Seq<char>>::empty() + f0 + f1 + f2 + f3 + f4 + f5 + f6 + f7 + f8 + f9 + f10 + f11
        + f12 + f13) + (ln + o));
}

/// Each setting's value is no flag, under [`flags_unused`].
proof fn lemma_setting_values_plain(base: Seq<char>, params: ScanParams)
    requires
        params.well_formed(),
        flags_unused(base, params@),
    ensures
        forall|j: int| 0 <= j < setting_pairs(params@).len() ==> plain_value(#[trigger] setting_pairs(params@)[j].1),
        forall|j: int|
            0 <= j < setting_pairs(params@).len() ==> #[trigger] setting_pairs(params@)[j].0 == setting_flags()[j + 1],
        setting_pairs(params@).len() == 14,
{
    let p = params@;
    let ps = setting_pairs(p);
    lemma_decimal_starts_with_digit(p.resolution as nat);
    lemma_numeric_not_flag(decimal(p.resolution as nat));
    assert forall|n: Option<Number>| crate::scanner::opt_number_well_formed(n) implies plain_value(
        #[trigger] number_arg(crate::scanner::opt_number(n)),
    ) by {
        if let Some(x) = n {
            lemma_number_text_starts(x@);
            lemma_numeric_not_flag(number_view_text(x@));
        }
    }
    assert(plain_value(number_arg(crate::scanner::opt_number(params.left))));
    assert(plain_value(number_arg(crate::scanner::opt_number(params.top))));
    assert(plain_value(number_arg(crate::scanner::opt_number(params.width))));
    assert(plain_value(number_arg(crate::scanner::opt_number(params.height))));
    assert forall|n: Option<i32>| true implies plain_value(#[trigger] integer_arg(n)) by {
        if let Some(v) = n {
            if v < 0 {
                lemma_decimal_starts_with_digit((-v) as nat);
                let t = signed_decimal(v as int);
                assert(t[1] == decimal((-v) as nat)[0]);
                lemma_numeric_not_flag(t);
            } else {
                lemma_decimal_starts_with_digit(v as nat);
                lemma_numeric_not_flag(signed_decimal(v as int));
            }
        }
    }
    assert(plain_value(integer_arg(p.brightness)));
    assert(plain_value(integer_arg(p.contrast)));
    assert forall|j: int| 0 <= j < ps.len() implies plain_value(#[trigger] ps[j].1) && ps[j].0
        == setting_flags()[j + 1] by {
        if j == 0 {
        } else if j == 1 {
        } else if j == 2 {
        } else if j == 3 {
        } else if j == 4 {
        } else if j == 5 {
        } else if j == 6 {
        } else if j == 7 {
        } else if j == 8 {
        } else if j == 9 {
        } else if j == 10 {
        } else if j == 11 {
        } else if j == 12 {
        } else {
        }
    }
}

/// What ends a scan's arguments holds no setting flag.
proof fn lemma_ending_plain(p: ScanParamsView)
    ensures
        forall|k: int| 0 <= k < 15 ==> lacks(lineart_setting(p) + scan_output(p), #[trigger] setting_flags()[k]),
{
    lemma_setting_flags_shape();
    reveal_strlit("--disable-dynamic-lineart=yes");
    reveal_strlit("--preview");
    reveal_strlit("-o");
    reveal_strlit("output");
    reveal_strlit("-d");
    reveal_strlit("--source");
    reveal_strlit("--mode");
    reveal_strlit("--gamma-correction");
    reveal_strlit("--color-correction");
    reveal_strlit("--color-space");
    reveal_strlit("--resolution");
    reveal_strlit("-l");
    reveal_strlit("-t");
    reveal_strlit("-x");
    reveal_strlit("-y");
    reveal_strlit("--format");
    reveal_strlit("--depth");
    reveal_strlit("--brightness");
    reveal_strlit("--contrast");
    let e = lineart_setting(p) + scan_output(p);
    assert forall|k: int| 0 <= k < 15 implies lacks(e, #[trigger] setting_flags()[k]) by {
        let f = setting_flags()[k];
        assert forall|i: int| 0 <= i < e.len() implies #[trigger] e[i] != f by {
            let x = e[i];
            assert(x == "--disable-dynamic-lineart=yes"@ || x == "--preview"@ || x == "-o"@ || x
                == "output"@);
            if x == "-o"@ {
                assert(x[1] == 'o');
            } else if x == "output"@ {
                assert(x[0] == 'o');
            }
        }
    }
}

/// In the command of a scan, the value after each flag is the request's own
/// value for it: `-d` the device, `--source`, `--mode`, `--gamma-correction`,
/// `--color-correction`, `--color-space`, `--format` and `--depth` the texts
/// given, `--resolution` the resolution in decimal, `-l`, `-t`, `-x`, `-y`
/// the left edge, top edge, width and height as written, `--brightness` the
/// brightness and `--contrast` the contrast (none in line art). A flag whose
/// value the request leaves out does not occur. This holds whenever the
/// program and the request's texts are not themselves such flags.
pub proof fn lemma_command_flags(base: Seq<char>, params: ScanParams)
    requires
        params.well_formed(),
        flags_unused(base, params@),
    ensures
        ({
            let p = params@;
            let c = scan_command(base, p);
            &&& value_after(c, "-d"@) == Some(p.device_id)
            &&& value_after(c, "--source"@) == p.source
            &&& value_after(c, "--mode"@) == p.mode
            &&& value_after(c, "--gamma-correction"@) == p.gamma_correction
            &&& value_after(c, "--color-correction"@) == p.color_correction
            &&& value_after(c, "--color-space"@) == p.color_space
            &&& value_after(c, "--resolution"@) == Some(decimal(p.resolution as nat))
            &&& value_after(c, "-l"@) == match p.left {
                Some(v) => Some(number_view_text(v)),
                None => None,
            }
            &&& value_after(c, "-t"@) == match p.top {
                Some(v) => Some(number_view_text(v)),
                None => None,
            }
            &&& value_after(c, "-x"@) == match p.width {
                Some(v) => Some(number_view_text(v)),
                None => None,
            }
            &&& value_after(c, "-y"@) == match p.height {
                Some(v) => Some(number_view_text(v)),
                None => None,
            }
            &&& value_after(c, "--format"@) == p.format
            &&& value_after(c, "--depth"@) == p.depth
            &&& value_after(c, "--brightness"@) == match p.brightness {
                Some(v) => Some(signed_decimal(v as int)),
                None => None,
            }
            &&& value_after(c, "--contrast"@) == if p.mode == Some("Lineart"@) {
                None
            } else {
                match p.contrast {
                    Some(v) => Some(signed_decimal(v as int)),
                    None => None,
                }
            }
        }),
{
    let p = params@;
    let ps = setting_pairs(p);
    let h = seq![base, "-d"@, p.device_id];
    let post = lineart_setting(p) + scan_output(p);
    let c = scan_command(base, p);
    lemma_command_spelled(base, p);
    lemma_setting_flags_shape();
    lemma_setting_values_plain(base, params);
    lemma_ending_plain(p);
    let fs = setting_flags();
    assert forall|i: int| 0 <= i < 14 implies value_after(c, #[trigger] ps[i].0) == ps[i].1 by {
        let f = ps[i].0;
        assert(f == fs[i + 1]);
        assert(fs.contains(f));
        assert(base != f);
        assert(p.device_id != f);
        assert(fs[0] != fs[i + 1]);
        assert forall|k: int| 0 <= k < h.len() implies #[trigger] h[k] != f by {
            if k == 1 {
                assert(h[1] == fs[0]);
            }
        }
        assert(lacks(post, fs[i + 1]));
        assert forall|j: int| 0 <= j < ps.len() && j != i implies #[trigger] ps[j].0 != f by {
            assert(ps[j].0 == fs[j + 1]);
        }
        assert forall|j: int| 0 <= j < ps.len() implies #[trigger] ps[j].1 != Some(f) by {
            assert(plain_value(ps[j].1));
        }
        lemma_lookup_spelled(h, ps, post, i);
    }
    assert(value_after(c, "-d"@) == Some(p.device_id)) by {
        assert(fs[0] == "-d"@);
        assert(fs.contains(fs[0]));
        assert(base != "-d"@);
        assert(seq![base][0] == base);
        assert(c =~= seq![base] + (seq!["-d"@, p.device_id] + (spell(ps) + post)));
        lemma_value_after_skip(seq![base], seq!["-d"@, p.device_id] + (spell(ps) + post), "-d"@);
    }
    assert(ps[0].0 == "--source"@);
    assert(ps[1].0 == "--mode"@);
    assert(ps[2].0 == "--gamma-correction"@);
    assert(ps[3].0 == "--color-correction"@);
    assert(ps[4].0 == "--color-space"@);
    assert(ps[5].0 == "--resolution"@);
    assert(ps[6].0 == "-l"@);
    assert(ps[7].0 == "-t"@);
    assert(ps[8].0 == "-x"@);
    assert(ps[9].0 == "-y"@);
    assert(ps[10].0 == "--format"@);
    assert(ps[11].0 == "--depth"@);
    assert(ps[12].0 == "--brightness"@);
    assert(ps[13].0 == "--contrast"@);
}

fn push_text(args: &mut Vec<String>, t: &str)
    ensures
        texts(final(args)@) == texts(old(args)@).push(t@),
{
    args.push(String::from_str(t));
    assert(texts(args@) =~= texts(old(args)@).push(t@));
}

fn push_flag_text(args: &mut Vec<String>, flag: &str, value: &Option<String>)
    ensures
        texts(final(args)@) == texts(old(args)@) + flag_with(flag@, crate::scanner::opt_text(*value)),
{
    match value {
        Some(v) => {
            push_text(args, flag);
            push_text(args, v.as_str());
            assert(texts(args@) =~= texts(old(args)@) + flag_with(flag@, crate::scanner::opt_text(*value)));
        },
        None => {
            assert(texts(args@) =~= texts(old(args)@) + flag_with(flag@, crate::scanner::opt_text(*value)));
        },
    }
}

fn push_flag_number(args: &mut Vec<String>, flag: &str, value: &Option<Number>)
    requires
        crate::scanner::opt_number_well_formed(*value),
    ensures
        texts(final(args)@) == texts(old(args)@) + flag_with(flag@, number_arg(crate::scanner::opt_number(*value))),
{
    match value {
        Some(v) => {
            push_text(args, flag);
            let t = v.to_text();
            push_text(args, t.as_str());
            assert(texts(args@) =~= texts(old(args)@) + flag_with(flag@, number_arg(crate::scanner::opt_number(*value))));
        },
        None => {
            assert(texts(args@) =~= texts(old(args)@) + flag_with(flag@, number_arg(crate::scanner::opt_number(*value))));
        },
    }
}

fn push_flag_integer(args: &mut Vec<String>, flag: &str, value: Option<i32>)
    ensures
        texts(final(args)@) == texts(old(args)@) + flag_with(flag@, integer_arg(value)),
{
    match value {
        Some(v) => {
            push_text(args, flag);
            let mut t = String::new();
            push_signed_decimal(&mut t, v);
            push_text(args, t.as_str());
            assert(texts(args@) =~= texts(old(args)@) + flag_with(flag@, integer_arg(value)));
        },
        None => {
            assert(texts(args@) =~= texts(old(args)@) + flag_with(flag@, integer_arg(value)));
        },
    }
}

fn push_pair(args: &mut Vec<String>, flag: &str, value: &str)
    ensures
        texts(final(args)@) == texts(old(args)@) + seq![flag@, value@],
{
    push_text(args, flag);
    push_text(args, value);
    assert(texts(args@) =~= texts(old(args)@) + seq![flag@, value@]);
}

fn push_picture_settings(args: &mut Vec<String>, params: &ScanParams)
    ensures
        texts(final(args)@) == texts(old(args)@) + scan_picture_settings(params@),
{
    let ghost p = params@;
    let ghost start = texts(args@);
    push_flag_text(args, "--source", &params.source);
    let ghost acc = flag_with("--source"@, p.source);
    push_flag_text(args, "--mode", &params.mode);
    proof {
        assert(texts(args@) =~= start + (acc + flag_with("--mode"@, p.mode)));
        acc = acc + flag_with("--mode"@, p.mode);
    }
    push_flag_text(args, "--gamma-correction", &params.gamma_correction);
    proof {
        assert(texts(args@) =~= start + (acc + flag_with("--gamma-correction"@, p.gamma_correction)));
        acc = acc + flag_with("--gamma-correction"@, p.gamma_correction);
    }
    push_flag_text(args, "--color-correction", &params.color_correction);
    proof {
        assert(texts(args@) =~= start + (acc + flag_with("--color-correction"@, p.color_correction)));
        acc = acc + flag_with("--color-correction"@, p.color_correction);
    }
    push_flag_text(args, "--color-space", &params.color_space);
    proof {
        assert(texts(args@) =~= start + (acc + flag_with("--color-space"@, p.color_space)));
        acc = acc + flag_with("--color-space"@, p.color_space);
    }
    let mut res = String::new();
    push_decimal(&mut res, params.resolution as u64);
    push_pair(args, "--resolution", res.as_str());
    proof {
        assert(texts(args@) =~= start + (acc + seq!["--resolution"@, decimal(p.resolution as nat)]));
    }
}

fn push_area_settings(args: &mut Vec<String>, params: &ScanParams)
    requires
        params.well_formed(),
    ensures
        texts(final(args)@) == texts(old(args)@) + scan_area_settings(params@),
{
    let ghost p = params@;
    let ghost start = texts(args@);
    push_flag_number(args, "-l", &params.left);
    let ghost acc = flag_with("-l"@, number_arg(p.left));
    push_flag_number(args, "-t", &params.top);
    proof {
        assert(texts(args@) =~= start + (acc + flag_with("-t"@, number_arg(p.top))));
        acc = acc + flag_with("-t"@, number_arg(p.top));
    }
    push_flag_number(args, "-x", &params.width);
    proof {
        assert(texts(args@) =~= start + (acc + flag_with("-x"@, number_arg(p.width))));
        acc = acc + flag_with("-x"@, number_arg(p.width));
    }
    push_flag_number(args, "-y", &params.height);
    proof {
        assert(texts(args@) =~= start + (acc + flag_with("-y"@, number_arg(p.height))));
    }
}

fn push_output_settings(args: &mut Vec<String>, params: &ScanParams)
    ensures
        texts(final(args)@) == texts(old(args)@) + scan_output_settings(params@),
{
    let ghost p = params@;
    let ghost start = texts(args@);
    push_flag_text(args, "--format", &params.format);
    let ghost acc = flag_with("--format"@, p.format);
    push_flag_text(args, "--depth", &params.depth);
    proof {
        assert(texts(args@) =~= start + (acc + flag_with("--depth"@, p.depth)));
        acc = acc + flag_with("--depth"@, p.depth);
    }
    push_flag_integer(args, "--brightness", params.brightness);
    proof {
        assert(texts(args@) =~= start + (acc + flag_with("--brightness"@, integer_arg(p.brightness))));
        acc = acc + flag_with("--brightness"@, integer_arg(p.brightness));
    }
    let lineart = match &params.mode {
        Some(m) => text_equals(m.as_str(), "Lineart"),
        None => false,
    };
    assert(lineart == is_lineart(p));
    if !lineart {
        push_flag_integer(args, "--contrast", params.contrast);
    }
    proof {
        assert(texts(args@) =~= start + (acc + contrast_setting(p)));
        acc = acc + contrast_setting(p);
    }
    if lineart && params.dynamic_lineart == Some(false) {
        push_text(args, "--disable-dynamic-lineart=yes");
    }
    proof {
        assert(texts(args@) =~= start + (acc + lineart_setting(p)));
    }
}

/// Appends the settings part of the arguments.
fn push_settings(args: &mut Vec<String>, params: &ScanParams)
    requires
        params.well_formed(),
    ensures
        texts(final(args)@) == texts(old(args)@) + scan_settings(params@),
{
    let ghost start = texts(args@);
    push_picture_settings(args, params);
    let ghost a = scan_picture_settings(params@);
    push_area_settings(args, params);
    assert(texts(args@) =~= start + (a + scan_area_settings(params@)));
    let ghost b = a + scan_area_settings(params@);
    push_output_settings(args, params);
    assert(texts(args@) =~= start + (b + scan_output_settings(params@)));
}

/// The arguments of the command that performs a scan with `params`,
/// starting with the program `base_cmd`.
pub fn build_scan_command(base_cmd: &str, params: &ScanParams) -> (args: Vec<String>)
    requires
        params.well_formed(),
    ensures
        texts(args@) == scan_command(base_cmd@, params@),
        args@.len() >= 3,
        args@[0]@ == base_cmd@,
        args@[1]@ == "-d"@,
        args@[2]@ == params.device_id@,
        params.is_preview == Some(true) ==> args@.last()@ == "--preview"@,
        params.is_preview != Some(true) ==> args@[args@.len() - 2]@ == "-o"@ && args@.last()@
            == "output"@,
{
    let ghost p = params@;
    let mut args: Vec<String> = Vec::new();
    push_text(&mut args, base_cmd);
    push_text(&mut args, "-d");
    push_text(&mut args, params.device_id.as_str());
    let ghost head = seq![base_cmd@, "-d"@, p.device_id];
    assert(texts(args@) =~= head);
    push_settings(&mut args, params);
    let ghost before_output = texts(args@);
    if params.is_preview == Some(true) {
        push_text(&mut args, "--preview");
        assert(texts(args@) =~= before_output + scan_output(p));
    } else {
        push_pair(&mut args, "-o", "output");
    }
    proof {
        let t = texts(args@);
        let settings = scan_settings(p);
        assert(t == head + settings + scan_output(p));
        assert(t.len() == args@.len());
        assert(t[0] == (head + settings)[0]);
        assert(t[1] == (head + settings)[1]);
        assert(t[2] == (head + settings)[2]);
        assert(t[0] == args@[0]@);
        assert(t[1] == args@[1]@);
        assert(t[2] == args@[2]@);
        let n = t.len() as int;
        let m = (head + settings).len() as int;
        assert(t[n - 1] == args@[n - 1]@);
        assert(t[n - 2] == args@[n - 2]@);
        if p.is_preview == Some(true) {
            assert(t[n - 1] == scan_output(p)[n - 1 - m]);
        } else {
            assert(t[n - 1] == scan_output(p)[n - 1 - m]);
            assert(t[n - 2] == scan_output(p)[n - 2 - m]);
        }
    }
    args
}

} // verus!

//! Which scan requests the scanner accepts.

use vstd::prelude::*;
use crate::device::{
    Device, DeviceView, OptionValue, OptionView, epson_v600_model, find_feature, lemma_find_named,
    lemma_v600_names_distinct,
};
use crate::error::{AppError, ErrorView, unit_outcome};
use crate::number::{
    Number, NumberView, compare_numbers, lemma_decimal_injective, number_less, number_view_text,
    scaled_number,
};
use crate::scanner::{ScanParams, ScanParamsView};
use crate::text::{debug_quoted, debug_text, decimal, push_decimal, text_equals};

verus! {

/// `o` allows the value written `value`: a text option by being that text,
/// a whole-number option by being written so in decimal.
pub open spec fn option_accepts(o: OptionView, value: Seq<char>) -> bool {
    match o {
        OptionView::Text(s) => s == value,
        OptionView::Integer(n) => decimal(n as nat) == value,
    }
}

/// How an option is shown in a message: `String("...")` or `Number(n)`.
pub open spec fn option_text(o: OptionView) -> Seq<char> {
    match o {
        OptionView::Text(s) => "String("@ + debug_quoted(s) + ")"@,
        OptionView::Integer(n) => "Number("@ + decimal(n as nat) + ")"@,
    }
}

/// The options shown one after another, separated by `, `.
pub open spec fn option_items(opts: Seq<OptionView>) -> Seq<char>
    decreases opts.len(),
{
    if opts.len() == 0 {
        Seq::empty()
    } else if opts.len() == 1 {
        option_text(opts[0])
    } else {
        option_items(opts.drop_last()) + ", "@ + option_text(opts.last())
    }
}

/// How a list of options is shown in a message: `[` items `]`.
pub open spec fn option_list_text(opts: Seq<OptionView>) -> Seq<char> {
    "["@ + option_items(opts) + "]"@
}

/// The message for a feature the device lacks.
pub open spec fn missing_feature(name: Seq<char>) -> Seq<char> {
    name + " is missing from device"@
}

/// Why `value`, if given, is refused for feature `name`: the device lacks
/// the feature, or the feature lists options and none allows the value.
pub open spec fn option_problem(name: Seq<char>, value: Option<Seq<char>>, d: DeviceView) -> Option<
    Seq<char>,
> {
    match value {
        None => None,
        Some(v) => match find_feature(d.features, name) {
            None => Some(missing_feature(name)),
            Some(f) => match f.options {
                None => None,
                Some(opts) => if exists|i: int| 0 <= i < opts.len() && option_accepts(#[trigger] opts[i], v) {
                    None
                } else {
                    Some("Invalid "@ + name + ": '"@ + v + "' not in '"@ + option_list_text(opts) + "'"@)
                },
            },
        },
    }
}

/// Why `value`, if given, is refused for feature `name`: the device lacks
/// the feature, or the value lies below or above the feature's limits.
pub open spec fn range_problem(name: Seq<char>, value: Option<NumberView>, d: DeviceView) -> Option<
    Seq<char>,
> {
    match value {
        None => None,
        Some(v) => match find_feature(d.features, name) {
            None => Some(missing_feature(name)),
            Some(f) => match f.limits {
                None => None,
                Some(l) => if number_less(v, l.0) || number_less(l.1, v) {
                    Some(
                        name + ": "@ + number_view_text(v) + " out of range ["@ + number_view_text(l.0)
                            + ", "@ + number_view_text(l.1) + "]"@,
                    )
                } else {
                    None
                },
            },
        },
    }
}

/// The first of two problems.
pub open spec fn or_else(a: Option<Seq<char>>, b: Option<Seq<char>>) -> Option<Seq<char>> {
    match a {
        Some(m) => Some(m),
        None => b,
    }
}

/// Why a scan request is refused for device `d`, checked in this order: the
/// device named is another; the resolution, mode, format, source, gamma,
/// colour correction, colour space or depth is not one the device offers;
/// the left edge, top edge, width or height lies outside the device's
/// limits. `None` when it is accepted.
pub open spec fn params_problem(p: ScanParamsView, d: DeviceView) -> Option<Seq<char>> {
    if p.device_id != d.id {
        Some("Device "@ + p.device_id + " not found"@)
    } else {
        or_else(option_problem("--resolution"@, Some(decimal(p.resolution as nat)), d),
        or_else(option_problem("--mode"@, p.mode, d),
        or_else(option_problem("--format"@, p.format, d),
        or_else(option_problem("--source"@, p.source, d),
        or_else(option_problem("--gamma-correction"@, p.gamma_correction, d),
        or_else(option_problem("--color-correction"@, p.color_correction, d),
        or_else(option_problem("--color-space"@, p.color_space, d),
        or_else(option_problem("--depth"@, p.depth, d),
        or_else(range_problem("-l"@, p.left, d),
        or_else(range_problem("-t"@, p.top, d),
        or_else(range_problem("-x"@, p.width, d),
        range_problem("-y"@, p.height, d))))))))))))
    }
}

/// The Epson Perfection V600 accepts exactly the resolutions it lists:
/// 200, 400, 800, 1600, 3200 and 6400.
pub proof fn lemma_v600_resolutions(r: u32)
    ensures
        option_problem("--resolution"@, Some(decimal(r as nat)), epson_v600_model()) is None <==> (r
            == 200 || r == 400 || r == 800 || r == 1600 || r == 3200 || r == 6400),
{
    let d = epson_v600_model();
    reveal_strlit("--mode");
    reveal_strlit("--depth");
    reveal_strlit("--resolution");
    let fs = d.features;
    assert(fs[0].name == "--mode"@);
    assert(fs[1].name == "--depth"@);
    assert(fs[2].name == "--resolution"@);
    let n = "--resolution"@;
    assert("--mode"@.len() != n.len());
    assert("--depth"@.len() != n.len());
    let f1 = fs.drop_first();
    let f2 = f1.drop_first();
    assert(f1[0] == fs[1]);
    assert(f2[0] == fs[2]);
    assert(find_feature(f2, n) == Some(fs[2]));
    assert(find_feature(f1, n) == find_feature(f2, n));
    assert(find_feature(fs, n) == find_feature(f1, n));
    let list = seq![200u32, 400, 800, 1600, 3200, 6400];
    let opts = list.map_values(|o: u32| OptionView::Integer(o));
    assert(fs[2].options == Some(opts));
    let v = decimal(r as nat);
    if exists|i: int| 0 <= i < opts.len() && option_accepts(#[trigger] opts[i], v) {
        let i = choose|i: int| 0 <= i < opts.len() && option_accepts(#[trigger] opts[i], v);
        assert(opts[i] == OptionView::Integer(list[i]));
        lemma_decimal_injective(list[i] as nat, r as nat);
        assert(i == 0 || i == 1 || i == 2 || i == 3 || i == 4 || i == 5);
    }
    if r == 200 || r == 400 || r == 800 || r == 1600 || r == 3200 || r == 6400 {
        let i: int = if r == 200 { 0 } else if r == 400 { 1 } else if r == 800 { 2 } else if r == 1600 {
            3
        } else if r == 3200 {
            4
        } else {
            5
        };
        assert(opts[i] == OptionView::Integer(list[i]));
        assert(option_accepts(opts[i], v));
    }
}

/// `v`, if given, is one of the texts `opts`.
pub open spec fn among(v: Option<Seq<char>>, opts: Seq<Seq<char>>) -> bool {
    match v {
        Some(x) => opts.contains(x),
        None => true,
    }
}

/// `v`, if given, lies between `lo` and `hi`, both included.
pub open spec fn within(v: Option<NumberView>, lo: NumberView, hi: NumberView) -> bool {
    match v {
        Some(x) => !number_less(x, lo) && !number_less(hi, x),
        None => true,
    }
}

/// The requests the Epson Perfection V600 accepts, written out: its own
/// name, one of its resolutions, a mode, format, source, gamma, colour
/// correction, colour space and depth among those it lists, and a left edge
/// and width within 0 to 215.9 mm and a top edge and height within 0 to
/// 297.18 mm, bounds included.
pub open spec fn v600_accepts(p: ScanParamsView) -> bool {
    &&& p.device_id == "EpsonPerfectionV600"@
    &&& (p.resolution == 200 || p.resolution == 400 || p.resolution == 800 || p.resolution == 1600
        || p.resolution == 3200 || p.resolution == 6400)
    &&& among(p.mode, seq!["Binary"@, "Gray"@, "Color"@])
    &&& among(p.format, seq!["jpeg"@, "jpeg-xl"@, "png"@, "ppm"@, "tiff"@])
    &&& among(p.source, seq!["Flatbed"@, "Transparency Unit"@])
    &&& among(p.gamma_correction, seq!["1.0"@, "1.8"@, "2.0"@, "2.2"@, "2.4"@, "2.8"@])
    &&& among(p.color_correction, seq!["yes"@, "no"@])
    &&& among(
        p.color_space,
        seq!["None"@, "Adobe RGB (1998)"@, "EPSON sRGB"@, "sRGB IEC61966-2.1"@],
    )
    &&& among(p.depth, seq!["8"@, "16"@])
    &&& within(p.left, scaled_number(false, 0, 0), scaled_number(false, 2159, 1))
    &&& within(p.top, scaled_number(false, 0, 0), scaled_number(false, 29718, 2))
    &&& within(p.width, scaled_number(false, 0, 0), scaled_number(false, 2159, 1))
    &&& within(p.height, scaled_number(false, 0, 0), scaled_number(false, 29718, 2))
}

/// A feature of the V600 whose options are the texts `texts` accepts a
/// value exactly when it is one of them.
proof fn lemma_v600_option(name: Seq<char>, k: int, texts: Seq<Seq<char>>, v: Option<Seq<char>>)
    requires
        0 <= k < epson_v600_model().features.len(),
        epson_v600_model().features[k].name == name,
        epson_v600_model().features[k].options == Some(
            texts.map_values(|o: Seq<char>| OptionView::Text(o)),
        ),
    ensures
        option_problem(name, v, epson_v600_model()) is None <==> among(v, texts),
{
    let fs = epson_v600_model().features;
    lemma_v600_names_distinct();
    lemma_find_named(fs, k);
    let opts = texts.map_values(|o: Seq<char>| OptionView::Text(o));
    if let Some(x) = v {
        if exists|i: int| 0 <= i < opts.len() && option_accepts(#[trigger] opts[i], x) {
            let i = choose|i: int| 0 <= i < opts.len() && option_accepts(#[trigger] opts[i], x);
            assert(texts[i] == x);
        }
        if texts.contains(x) {
            let i = choose|i: int| 0 <= i < texts.len() && texts[i] == x;
            assert(option_accepts(opts[i], x));
        }
    }
}

/// A length of the V600 limited to `lo..hi` accepts a value exactly when it
/// lies within them.
proof fn lemma_v600_range(name: Seq<char>, k: int, lo: NumberView, hi: NumberView, v: Option<
    NumberView,
>)
    requires
        0 <= k < epson_v600_model().features.len(),
        epson_v600_model().features[k].name == name,
        epson_v600_model().features[k].limits == Some((lo, hi)),
    ensures
        range_problem(name, v, epson_v600_model()) is None <==> within(v, lo, hi),
{
    lemma_v600_names_distinct();
    lemma_find_named(epson_v600_model().features, k);
}

/// The Epson Perfection V600 accepts exactly the requests that
/// [`v600_accepts`] writes out, and [`validate_params`] refuses every other
/// with a bad request.
pub proof fn lemma_v600_accepts(p: ScanParamsView)
    ensures
        params_problem(p, epson_v600_model()) is None <==> v600_accepts(p),
        refusal(params_problem(p, epson_v600_model())) matches Some(e) ==> e is BadRequest,
{
    let d = epson_v600_model();
    lemma_v600_resolutions(p.resolution);
    lemma_v600_option("--mode"@, 0, seq!["Binary"@, "Gray"@, "Color"@], p.mode);
    lemma_v600_option("--format"@, 7, seq!["jpeg"@, "jpeg-xl"@, "png"@, "ppm"@, "tiff"@], p.format);
    lemma_v600_option("--source"@, 8, seq!["Flatbed"@, "Transparency Unit"@], p.source);
    lemma_v600_option(
        "--gamma-correction"@,
        9,
        seq!["1.0"@, "1.8"@, "2.0"@, "2.2"@, "2.4"@, "2.8"@],
        p.gamma_correction,
    );
    lemma_v600_option("--color-correction"@, 10, seq!["yes"@, "no"@], p.color_correction);
    lemma_v600_option(
        "--color-space"@,
        11,
        seq!["None"@, "Adobe RGB (1998)"@, "EPSON sRGB"@, "sRGB IEC61966-2.1"@],
        p.color_space,
    );
    lemma_v600_option("--depth"@, 1, seq!["8"@, "16"@], p.depth);
    lemma_v600_range("-l"@, 3, scaled_number(false, 0, 0), scaled_number(false, 2159, 1), p.left);
    lemma_v600_range("-t"@, 4, scaled_number(false, 0, 0), scaled_number(false, 29718, 2), p.top);
    lemma_v600_range("-x"@, 5, scaled_number(false, 0, 0), scaled_number(false, 2159, 1), p.width);
    lemma_v600_range("-y"@, 6, scaled_number(false, 0, 0), scaled_number(false, 29718, 2), p.height);
}

/// The outcome that refuses with `problem`, or accepts when there is none.
pub open spec fn refusal(problem: Option<Seq<char>>) -> Option<ErrorView> {
    match problem {
        Some(m) => Some(ErrorView::BadRequest(m)),
        None => None,
    }
}

fn option_accepted(o: &OptionValue, value: &str) -> (r: bool)
    ensures
        r == option_accepts(o@, value@),
{
    match o {
        OptionValue::Text(s) => text_equals(s.as_str(), value),
        OptionValue::Integer(n) => {
            let mut t = String::new();
            push_decimal(&mut t, *n as u64);
            text_equals(t.as_str(), value)
        },
    }
}

fn push_option_text(out: &mut String, o: &OptionValue)
    ensures
        final(out)@ == old(out)@ + option_text(o@),
{
    match o {
        OptionValue::Text(s) => {
            out.append("String(");
            let q = debug_text(s.as_str());
            out.append(q.as_str());
            out.append(")");
        },
        OptionValue::Integer(n) => {
            out.append("Number(");
            push_decimal(out, *n as u64);
            out.append(")");
        },
    }
}

fn option_list(opts: &Vec<OptionValue>) -> (t: String)
    ensures
        t@ == option_list_text(crate::device::option_views(opts@)),
{
    let ghost views = crate::device::option_views(opts@);
    let mut t = String::new();
    t.append("[");
    let ghost start = t@;
    let mut i: usize = 0;
    while i < opts.len()
        invariant
            i <= opts@.len(),
            views == crate::device::option_views(opts@),
            t@ == start + option_items(views.subrange(0, i as int)),
        decreases opts.len() - i,
    {
        let ghost before = t@;
        if i > 0 {
            t.append(", ");
        }
        push_option_text(&mut t, &opts[i]);
        proof {
            let s1 = views.subrange(0, i + 1);
            assert(s1.drop_last() =~= views.subrange(0, i as int));
            assert(s1.last() == opts@[i as int]@);
            if i == 0 {
                assert(option_items(views.subrange(0, 0)) =~= Seq::<char>::empty());
                assert(t@ =~= start + option_items(s1));
            } else {
                assert(t@ =~= start + option_items(s1));
            }
        }
        i = i + 1;
    }
    assert(views.subrange(0, opts@.len() as int) =~= views);
    t.append("]");
    t
}

fn missing(name: &str) -> (e: AppError)
    ensures
        e@ == ErrorView::BadRequest(missing_feature(name@)),
{
    let mut m = String::from_str(name);
    m.append(" is missing from device");
    AppError::BadRequest(m)
}

/// Checks a chosen value against the device's feature `feature_name`: no
/// value passes; a feature the device lacks refuses it; a feature without
/// options passes it; otherwise one of the options must allow it, or the
/// refusal names the value and lists the options.
#[verifier::loop_isolation(false)]
pub fn validate_option(feature_name: &str, value: &Option<String>, device: &Device) -> (r: Result<
    (),
    AppError,
>)
    ensures
        unit_outcome(r) == refusal(
            option_problem(feature_name@, crate::scanner::opt_text(*value), device@),
        ),
{
    let v = match value {
        Some(v) => v,
        None => return Ok(()),
    };
    let feature = match device.feature(feature_name) {
        Some(f) => f,
        None => return Err(missing(feature_name)),
    };
    match &feature.options {
        None => Ok(()),
        Some(options) => {
            let ghost views = crate::device::option_views(options@);
            assert(feature@.options == Some(views));
            let mut i: usize = 0;
            while i < options.len()
                invariant
                    i <= options@.len(),
                    views == crate::device::option_views(options@),
                    feature@.options == Some(views),
                    forall|j: int| 0 <= j < i ==> !option_accepts(#[trigger] views[j], v@),
                decreases options.len() - i,
            {
                if option_accepted(&options[i], v.as_str()) {
                    assert(option_accepts(views[i as int], v@));
                    assert(feature@.options == Some(views));
                    assert(exists|j: int| 0 <= j < views.len() && option_accepts(#[trigger] views[j], v@));
                    return Ok(());
                }
                i = i + 1;
            }
            let mut m = String::from_str("Invalid ");
            m.append(feature_name);
            m.append(": '");
            m.append(v.as_str());
            m.append("' not in '");
            let list = option_list(options);
            m.append(list.as_str());
            m.append("'");
            assert(m@ =~= "Invalid "@ + feature_name@ + ": '"@ + v@ + "' not in '"@ + option_list_text(
                views,
            ) + "'"@);
            Err(AppError::BadRequest(m))
        },
    }
}

/// Checks a length against the device's feature `feature_name`: a feature
/// the device lacks refuses it; a feature without limits passes it;
/// otherwise it must lie between the limits, both included, or the refusal
/// names the value and the limits.
pub fn validate_range(feature_name: &str, value: &Number, device: &Device) -> (r: Result<(), AppError>)
    requires
        value.well_formed(),
        device.well_formed(),
    ensures
        unit_outcome(r) == refusal(range_problem(feature_name@, Some(value@), device@)),
{
    let feature = match device.feature(feature_name) {
        Some(f) => f,
        None => return Err(missing(feature_name)),
    };
    match &feature.limits {
        None => Ok(()),
        Some(limits) => {
            proof {
                let i = choose|i: int| 0 <= i < device.features@.len() && device.features@[i] == *feature;
                assert(crate::device::limits_well_formed(device.features@));
                assert(match device.features@[i].limits {
                    Some(l) => l.0.well_formed() && l.1.well_formed(),
                    None => true,
                });
            }
            let below = compare_numbers(value, &limits.0) == -1;
            let above = compare_numbers(&limits.1, value) == -1;
            if below || above {
                let mut m = String::from_str(feature_name);
                m.append(": ");
                let vt = value.to_text();
                m.append(vt.as_str());
                m.append(" out of range [");
                let lo = limits.0.to_text();
                m.append(lo.as_str());
                m.append(", ");
                let hi = limits.1.to_text();
                m.append(hi.as_str());
                m.append("]");
                Err(AppError::BadRequest(m))
            } else {
                Ok(())
            }
        },
    }
}

/// Checks a scan request against a device: the request names this device,
/// each choice it makes is one of the device's options, and each length it
/// gives lies within the device's limits. The first failed check decides
/// the message.
pub fn validate_params(params: &ScanParams, device: &Device) -> (r: Result<(), AppError>)
    requires
        params.well_formed(),
        device.well_formed(),
    ensures
        unit_outcome(r) == refusal(params_problem(params@, device@)),
{
    if !text_equals(params.device_id.as_str(), device.id.as_str()) {
        let mut m = String::from_str("Device ");
        m.append(params.device_id.as_str());
        m.append(" not found");
        return Err(AppError::BadRequest(m));
    }
    let mut res = String::new();
    push_decimal(&mut res, params.resolution as u64);
    let r = validate_option("--resolution", &Some(res), device);
    if r.is_err() {
        return r;
    }
    let r = validate_option("--mode", &params.mode, device);
    if r.is_err() {
        return r;
    }
    let r = validate_option("--format", &params.format, device);
    if r.is_err() {
        return r;
    }
    let r = validate_option("--source", &params.source, device);
    if r.is_err() {
        return r;
    }
    let r = validate_option("--gamma-correction", &params.gamma_correction, device);
    if r.is_err() {
        return r;
    }
    let r = validate_option("--color-correction", &params.color_correction, device);
    if r.is_err() {
        return r;
    }
    let r = validate_option("--color-space", &params.color_space, device);
    if r.is_err() {
        return r;
    }
    let r = validate_option("--depth", &params.depth, device);
    if r.is_err() {
        return r;
    }
    if let Some(x) = &params.left {
        let r = validate_range("-l", x, device);
        if r.is_err() {
            return r;
        }
    }
    if let Some(x) = &params.top {
        let r = validate_range("-t", x, device);
        if r.is_err() {
            return r;
        }
    }
    if let Some(x) = &params.width {
        let r = validate_range("-x", x, device);
        if r.is_err() {
            return r;
        }
    }
    if let Some(x) = &params.height {
        let r = validate_range("-y", x, device);
        if r.is_err() {
            return r;
        }
    }
    Ok(())
}

} // verus!

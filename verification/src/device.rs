//! The scanner the service drives, described as the features a client may set.

use vstd::prelude::*;
use crate::number::{
    Number, NumberView, lemma_scaled_number_value, number_less, number_view_text, pow10,
    scaled_number,
};
use crate::text::{decimal, push_decimal};

verus! {

/// A value a feature may take or start from: text, a whole number, or a
/// decimal number.
#[derive(Debug, Clone, PartialEq, Eq)]
pub enum FeatureValue {
    Text(String),
    Integer(u32),
    Decimal(Number),
}

/// The model of a [`FeatureValue`].
pub enum ValueView {
    Text(Seq<char>),
    Integer(u32),
    Decimal(NumberView),
}

impl View for FeatureValue {
    type V = ValueView;

    open spec fn view(&self) -> ValueView {
        match self {
            FeatureValue::Text(s) => ValueView::Text(s@),
            FeatureValue::Integer(n) => ValueView::Integer(*n),
            FeatureValue::Decimal(d) => ValueView::Decimal(d@),
        }
    }
}

/// A value a client may choose for a feature: text or a whole number.
#[derive(Debug, Clone, PartialEq, Eq)]
pub enum OptionValue {
    Text(String),
    Integer(u32),
}

/// The model of an [`OptionValue`].
pub enum OptionView {
    Text(Seq<char>),
    Integer(u32),
}

impl View for OptionValue {
    type V = OptionView;

    open spec fn view(&self) -> OptionView {
        match self {
            OptionValue::Text(s) => OptionView::Text(s@),
            OptionValue::Integer(n) => OptionView::Integer(*n),
        }
    }
}

/// The models of a sequence of options.
pub open spec fn option_views(v: Seq<OptionValue>) -> Seq<OptionView> {
    v.map_values(|x: OptionValue| x@)
}

/// One setting of the scanner: how the scanner's help describes it, its
/// name on the command line, its default, the allowed values or range, and
/// the step within the range.
#[derive(Debug, Clone, PartialEq, Eq)]
pub struct Feature {
    pub text: String,
    pub name: String,
    pub default: FeatureValue,
    pub parameters: String,
    pub enabled: bool,
    pub meta: Option<String>,
    pub options: Option<Vec<OptionValue>>,
    pub limits: Option<(Number, Number)>,
    pub interval: Option<Number>,
}

/// The model of a [`Feature`].
pub struct FeatureView {
    pub text: Seq<char>,
    pub name: Seq<char>,
    pub default: ValueView,
    pub parameters: Seq<char>,
    pub enabled: bool,
    pub meta: Option<Seq<char>>,
    pub options: Option<Seq<OptionView>>,
    pub limits: Option<(NumberView, NumberView)>,
    pub interval: Option<NumberView>,
}

impl View for Feature {
    type V = FeatureView;

    open spec fn view(&self) -> FeatureView {
        FeatureView {
            text: self.text@,
            name: self.name@,
            default: self.default@,
            parameters: self.parameters@,
            enabled: self.enabled,
            meta: match &self.meta {
                Some(m) => Some(m@),
                None => None,
            },
            options: match &self.options {
                Some(o) => Some(option_views(o@)),
                None => None,
            },
            limits: match &self.limits {
                Some(l) => Some((l.0@, l.1@)),
                None => None,
            },
            interval: match &self.interval {
                Some(i) => Some(i@),
                None => None,
            },
        }
    }
}

/// A scanner: its identifier, its name, its features, and the values it is
/// currently set to, each under the name of its feature.
#[derive(Debug, Clone, PartialEq, Eq)]
pub struct Device {
    pub id: String,
    pub name: String,
    pub features: Vec<Feature>,
    pub settings: Vec<(String, FeatureValue)>,
}

/// The model of a [`Device`].
pub struct DeviceView {
    pub id: Seq<char>,
    pub name: Seq<char>,
    pub features: Seq<FeatureView>,
    pub settings: Seq<(Seq<char>, ValueView)>,
}

/// The models of a sequence of settings.
pub open spec fn setting_views(v: Seq<(String, FeatureValue)>) -> Seq<(Seq<char>, ValueView)> {
    v.map_values(|s: (String, FeatureValue)| (s.0@, s.1@))
}

/// The models of a sequence of features.
pub open spec fn feature_views(v: Seq<Feature>) -> Seq<FeatureView> {
    v.map_values(|f: Feature| f@)
}

impl View for Device {
    type V = DeviceView;

    open spec fn view(&self) -> DeviceView {
        DeviceView {
            id: self.id@,
            name: self.name@,
            features: feature_views(self.features@),
            settings: setting_views(self.settings@),
        }
    }
}

/// The first feature named `name`.
pub open spec fn find_feature(fs: Seq<FeatureView>, name: Seq<char>) -> Option<FeatureView>
    decreases fs.len(),
{
    if fs.len() == 0 {
        None
    } else if fs[0].name == name {
        Some(fs[0])
    } else {
        find_feature(fs.drop_first(), name)
    }
}

/// Every limit of every feature is a well-formed number.
pub open spec fn limits_well_formed(fs: Seq<Feature>) -> bool {
    forall|i: int|
        0 <= i < fs.len() ==> match #[trigger] fs[i].limits {
            Some(l) => l.0.well_formed() && l.1.well_formed(),
            None => true,
        }
}

/// No two features share a name, as no two keys of a map do.
pub open spec fn names_distinct(fs: Seq<FeatureView>) -> bool {
    forall|i: int, j: int| 0 <= i < j < fs.len() ==> #[trigger] fs[i].name != #[trigger] fs[j].name
}

/// Where no two features share a name, looking a feature's name up finds
/// that very feature.
pub proof fn lemma_find_named(fs: Seq<FeatureView>, i: int)
    requires
        names_distinct(fs),
        0 <= i < fs.len(),
    ensures
        find_feature(fs, fs[i].name) == Some(fs[i]),
    decreases i,
{
    if i > 0 {
        let rest = fs.drop_first();
        assert forall|a: int, b: int| 0 <= a < b < rest.len() implies #[trigger] rest[a].name
            != #[trigger] rest[b].name by {
            assert(rest[a] == fs[a + 1]);
            assert(rest[b] == fs[b + 1]);
        }
        assert(rest[i - 1] == fs[i]);
        assert(fs[0].name != fs[i].name);
        lemma_find_named(rest, i - 1);
    }
}

/// A name that no feature has finds nothing.
pub proof fn lemma_find_unnamed(fs: Seq<FeatureView>, name: Seq<char>)
    requires
        forall|i: int| 0 <= i < fs.len() ==> #[trigger] fs[i].name != name,
    ensures
        find_feature(fs, name) is None,
    decreases fs.len(),
{
    if fs.len() > 0 {
        let rest = fs.drop_first();
        assert forall|i: int| 0 <= i < rest.len() implies #[trigger] rest[i].name != name by {
            assert(rest[i] == fs[i + 1]);
        }
        lemma_find_unnamed(rest, name);
    }
}

impl Device {
    /// No two features share a name, and the limits the device sets are
    /// well-formed numbers.
    pub open spec fn well_formed(&self) -> bool {
        &&& names_distinct(self@.features)
        &&& limits_well_formed(self.features@)
    }

    /// The feature named `name`; the first such when several share it.
    pub fn feature(&self, name: &str) -> (r: Option<&Feature>)
        ensures
            match r {
                Some(f) => find_feature(self@.features, name@) == Some(f@) && exists|i: int|
                    0 <= i < self.features@.len() && self.features@[i] == *f,
                None => find_feature(self@.features, name@) is None,
            },
    {
        let n = self.features.len();
        let ghost all = self@.features;
        let mut i: usize = 0;
        assert(all.subrange(0, n as int) =~= all);
        while i < n
            invariant
                n == self.features@.len(),
                all == self@.features,
                i <= n,
                find_feature(all, name@) == find_feature(all.subrange(i as int, n as int), name@),
            decreases n - i,
        {
            let ghost rest = all.subrange(i as int, n as int);
            assert(rest[0] == self.features@[i as int]@);
            assert(rest.drop_first() =~= all.subrange(i + 1, n as int));
            if crate::text::text_equals(self.features[i].name.as_str(), name) {
                return Some(&self.features[i]);
            }
            i = i + 1;
        }
        assert(all.subrange(n as int, n as int) =~= Seq::<FeatureView>::empty());
        None
    }
}

/// No two features of the Epson Perfection V600 share a name, so each name
/// finds exactly its feature.
pub proof fn lemma_v600_names_distinct()
    ensures
        names_distinct(epson_v600_model().features),
{
    reveal_strlit("--mode");
    reveal_strlit("--depth");
    reveal_strlit("--resolution");
    reveal_strlit("-l");
    reveal_strlit("-t");
    reveal_strlit("-x");
    reveal_strlit("-y");
    reveal_strlit("--format");
    reveal_strlit("--source");
    reveal_strlit("--gamma-correction");
    reveal_strlit("--color-correction");
    reveal_strlit("--color-space");
    reveal_strlit("--brightness");
    reveal_strlit("--contrast");
    reveal_strlit("--preview");
    reveal_strlit("--speed");
    reveal_strlit("--scan-area");
    let fs = epson_v600_model().features;
    assert forall|i: int, j: int| 0 <= i < j < fs.len() implies #[trigger] fs[i].name != #[trigger] fs[j].name by {
        let a = fs[i].name;
        let b = fs[j].name;
        if a.len() == b.len() {
            if a.len() == 2 {
                assert(a[1] != b[1]);
            } else {
                assert(a[2] != b[2] || a[3] != b[3]);
            }
        }
    }
}

/// The number one, the step of every range.
pub open spec fn one() -> NumberView {
    scaled_number(false, 1, 0)
}

/// A feature whose value is one of the texts `options`.
pub open spec fn enum_feature(
    name: Seq<char>,
    text: Seq<char>,
    parameters: Seq<char>,
    options: Seq<Seq<char>>,
    default: Seq<char>,
) -> FeatureView {
    FeatureView {
        text,
        name,
        default: ValueView::Text(default),
        parameters,
        enabled: true,
        meta: None,
        options: Some(options.map_values(|o: Seq<char>| OptionView::Text(o))),
        limits: None,
        interval: None,
    }
}

/// A length on the glass, in millimetres between `min` and `max`, in steps of one.
pub open spec fn geometry_feature(
    name: Seq<char>,
    text: Seq<char>,
    min: NumberView,
    max: NumberView,
    default: NumberView,
) -> FeatureView {
    FeatureView {
        text,
        name,
        default: ValueView::Decimal(default),
        parameters: number_view_text(min) + ".."@ + number_view_text(max) + "mm"@,
        enabled: true,
        meta: None,
        options: None,
        limits: Some((min, max)),
        interval: Some(one()),
    }
}

/// The whole numbers of `s` in decimal, separated by `|`.
pub open spec fn bar_separated(s: Seq<u32>) -> Seq<char>
    decreases s.len(),
{
    if s.len() == 0 {
        Seq::empty()
    } else if s.len() == 1 {
        decimal(s[0] as nat)
    } else {
        bar_separated(s.drop_last()) + seq!['|'] + decimal(s.last() as nat)
    }
}

/// A resolution: one of the whole numbers `options`, ranging from the first to the last.
pub open spec fn resolution_feature(
    name: Seq<char>,
    text: Seq<char>,
    options: Seq<u32>,
    default: u32,
) -> FeatureView {
    FeatureView {
        text,
        name,
        default: ValueView::Integer(default),
        parameters: bar_separated(options),
        enabled: true,
        meta: None,
        options: Some(options.map_values(|o: u32| OptionView::Integer(o))),
        limits: Some(
            (scaled_number(false, options[0] as nat, 0), scaled_number(false, options.last() as nat, 0)),
        ),
        interval: Some(one()),
    }
}

/// A value between `min` and `max` in steps of `step`.
pub open spec fn range_feature(
    name: Seq<char>,
    text: Seq<char>,
    min: NumberView,
    max: NumberView,
    step: NumberView,
    default: NumberView,
) -> FeatureView {
    FeatureView {
        text,
        name,
        default: ValueView::Decimal(default),
        parameters: number_view_text(min) + ".."@ + number_view_text(max),
        enabled: true,
        meta: None,
        options: None,
        limits: Some((min, max)),
        interval: Some(step),
    }
}

/// How an option is written among a feature's parameters.
pub open spec fn option_word(o: OptionView) -> Seq<char> {
    match o {
        OptionView::Text(t) => t,
        OptionView::Integer(n) => decimal(n as nat),
    }
}

/// The options written one after another, separated by `|`.
pub open spec fn joined_options(os: Seq<OptionView>) -> Seq<char>
    decreases os.len(),
{
    if os.len() == 0 {
        Seq::empty()
    } else if os.len() == 1 {
        option_word(os[0])
    } else {
        joined_options(os.drop_last()) + seq!['|'] + option_word(os.last())
    }
}

/// A default of `v` is the option `o`.
pub open spec fn value_is_option(v: ValueView, o: OptionView) -> bool {
    match (v, o) {
        (ValueView::Text(a), OptionView::Text(b)) => a == b,
        (ValueView::Integer(a), OptionView::Integer(b)) => a == b,
        _ => false,
    }
}

/// The number a value stands for, if it is one.
pub open spec fn value_number(v: ValueView) -> Option<NumberView> {
    match v {
        ValueView::Text(_) => None,
        ValueView::Integer(n) => Some(scaled_number(false, n as nat, 0)),
        ValueView::Decimal(x) => Some(x),
    }
}

/// A feature that agrees with itself: its help text starts with its name,
/// it is enabled and carries no note; a list of options holds the default
/// and is what the parameters spell out; limits are in order and hold the
/// default between them.
pub open spec fn feature_consistent(f: FeatureView) -> bool {
    &&& f.name.is_prefix_of(f.text)
    &&& f.enabled
    &&& f.meta is None
    &&& match f.options {
        Some(os) => {
            &&& exists|k: int| 0 <= k < os.len() && #[trigger] value_is_option(f.default, os[k])
            &&& f.parameters == joined_options(os)
        },
        None => true,
    }
    &&& match f.limits {
        Some(l) => {
            &&& !number_less(l.1, l.0)
            &&& match value_number(f.default) {
                Some(x) => !number_less(x, l.0) && !number_less(l.1, x),
                None => false,
            }
        },
        None => true,
    }
}

/// Joining one more option adds a `|` and its word, unless it is the first.
pub proof fn lemma_joined_push(os: Seq<OptionView>, o: OptionView)
    ensures
        os.len() == 0 ==> joined_options(os.push(o)) == option_word(o),
        os.len() > 0 ==> joined_options(os.push(o)) == joined_options(os) + seq!['|'] + option_word(o),
{
    assert(os.push(o).drop_last() =~= os);
}

/// Whole-number options are joined as [`bar_separated`] writes them.
pub proof fn lemma_joined_numbers(s: Seq<u32>)
    ensures
        joined_options(s.map_values(|n: u32| OptionView::Integer(n))) == bar_separated(s),
    decreases s.len(),
{
    let os = s.map_values(|n: u32| OptionView::Integer(n));
    if s.len() > 1 {
        assert(os.drop_last() =~= s.drop_last().map_values(|n: u32| OptionView::Integer(n)));
        lemma_joined_numbers(s.drop_last());
    }
}

/// A feature of texts is consistent when its name begins its help, its
/// parameters join its options and its default is the option at `k`.
pub proof fn lemma_enum_consistent(
    name: Seq<char>,
    text: Seq<char>,
    parameters: Seq<char>,
    options: Seq<Seq<char>>,
    default: Seq<char>,
    k: int,
)
    requires
        name.is_prefix_of(text),
        parameters == joined_options(options.map_values(|o: Seq<char>| OptionView::Text(o))),
        0 <= k < options.len(),
        options[k] == default,
    ensures
        feature_consistent(enum_feature(name, text, parameters, options, default)),
{
    let f = enum_feature(name, text, parameters, options, default);
    let os = options.map_values(|o: Seq<char>| OptionView::Text(o));
    assert(value_is_option(f.default, os[k]));
}

/// A length on the glass is consistent when its name begins its help and
/// `min <= default <= max`.
pub proof fn lemma_geometry_consistent(
    name: Seq<char>,
    text: Seq<char>,
    min: NumberView,
    max: NumberView,
    default: NumberView,
)
    requires
        name.is_prefix_of(text),
        !number_less(max, min),
        !number_less(default, min),
        !number_less(max, default),
    ensures
        feature_consistent(geometry_feature(name, text, min, max, default)),
{
}

/// A range is consistent when its name begins its help and
/// `min <= default <= max`.
pub proof fn lemma_range_consistent(
    name: Seq<char>,
    text: Seq<char>,
    min: NumberView,
    max: NumberView,
    step: NumberView,
    default: NumberView,
)
    requires
        name.is_prefix_of(text),
        !number_less(max, min),
        !number_less(default, min),
        !number_less(max, default),
    ensures
        feature_consistent(range_feature(name, text, min, max, step, default)),
{
}

/// The views of a slice of texts.
pub open spec fn text_views(s: Seq<&str>) -> Seq<Seq<char>> {
    s.map_values(|t: &str| t@)
}

/// A feature whose value is one of the texts `options`, with help `text`,
/// parameters `params` and default `default`.
pub fn feature_enum(name: &str, text: &str, params: &str, options: &[&str], default: &str) -> (f:
    Feature)
    ensures
        f.limits matches Some(l) ==> l.0.well_formed() && l.1.well_formed(),
        f@ == enum_feature(name@, text@, params@, text_views(options@), default@),
{
    let mut values: Vec<OptionValue> = Vec::new();
    let mut i: usize = 0;
    while i < options.len()
        invariant
            i <= options@.len(),
            option_views(values@) == text_views(options@.subrange(0, i as int)).map_values(
                |o: Seq<char>| OptionView::Text(o),
            ),
        decreases options.len() - i,
    {
        let ghost before = values@;
        values.push(OptionValue::Text(String::from_str(options[i])));
        assert(option_views(values@) =~= option_views(before).push(
            OptionView::Text(options@[i as int]@),
        ));
        assert(text_views(options@.subrange(0, i + 1)).map_values(|o: Seq<char>| OptionView::Text(o))
            =~= text_views(options@.subrange(0, i as int)).map_values(
            |o: Seq<char>| OptionView::Text(o),
        ).push(OptionView::Text(options@[i as int]@)));
        i = i + 1;
    }
    assert(options@.subrange(0, options@.len() as int) =~= options@);
    let f = Feature {
        text: String::from_str(text),
        name: String::from_str(name),
        default: FeatureValue::Text(String::from_str(default)),
        parameters: String::from_str(params),
        enabled: true,
        meta: None,
        options: Some(values),
        limits: None,
        interval: None,
    };
    assert(f@ =~= enum_feature(name@, text@, params@, text_views(options@), default@));
    f
}

fn one_number() -> (n: Number)
    ensures
        n@ == one(),
        n.well_formed(),
{
    Number::scaled(false, 1, 0)
}

/// A length on the glass between `min` and `max` millimetres, in steps of
/// one, starting at `default`.
pub fn feature_geometry(name: &str, text: &str, min: Number, max: Number, default: Number) -> (f:
    Feature)
    requires
        min.well_formed(),
        max.well_formed(),
    ensures
        f.limits matches Some(l) ==> l.0.well_formed() && l.1.well_formed(),
        f@ == geometry_feature(name@, text@, min@, max@, default@),
{
    let mut parameters = min.to_text();
    parameters.append("..");
    let top = max.to_text();
    parameters.append(top.as_str());
    parameters.append("mm");
    let f = Feature {
        text: String::from_str(text),
        name: String::from_str(name),
        default: FeatureValue::Decimal(default),
        parameters,
        enabled: true,
        meta: None,
        options: None,
        limits: Some((min, max)),
        interval: Some(one_number()),
    };
    assert(f@ =~= geometry_feature(name@, text@, min@, max@, default@));
    f
}

/// A resolution: one of the whole numbers `options`, limited by the first
/// and the last of them (which must exist), starting at `default`.
pub fn feature_resolution(name: &str, text: &str, options: &[u32], default: u32) -> (f: Feature)
    requires
        options@.len() > 0,
    ensures
        f.limits matches Some(l) ==> l.0.well_formed() && l.1.well_formed(),
        f@ == resolution_feature(name@, text@, options@, default),
{
    let mut parameters = String::new();
    let mut values: Vec<OptionValue> = Vec::new();
    let mut i: usize = 0;
    while i < options.len()
        invariant
            i <= options@.len(),
            parameters@ == bar_separated(options@.subrange(0, i as int)),
            option_views(values@) == options@.subrange(0, i as int).map_values(
                |o: u32| OptionView::Integer(o),
            ),
        decreases options.len() - i,
    {
        let ghost before = values@;
        let ghost text_before = parameters@;
        if i > 0 {
            crate::text::push_char(&mut parameters, '|');
        }
        push_decimal(&mut parameters, options[i] as u64);
        values.push(OptionValue::Integer(options[i]));
        proof {
            let s1 = options@.subrange(0, i + 1);
            assert(s1.drop_last() =~= options@.subrange(0, i as int));
            if i == 0 {
                assert(text_before =~= Seq::<char>::empty());
                assert(parameters@ =~= bar_separated(s1));
            } else {
                assert(parameters@ =~= bar_separated(s1));
            }
            assert(option_views(values@) =~= option_views(before).push(
                OptionView::Integer(options@[i as int]),
            ));
            assert(s1.map_values(|o: u32| OptionView::Integer(o)) =~= options@.subrange(
                0,
                i as int,
            ).map_values(|o: u32| OptionView::Integer(o)).push(OptionView::Integer(options@[i as int])));
        }
        i = i + 1;
    }
    assert(options@.subrange(0, options@.len() as int) =~= options@);
    let lo = Number::scaled(false, options[0] as u64, 0);
    let hi = Number::scaled(false, options[options.len() - 1] as u64, 0);
    let f = Feature {
        text: String::from_str(text),
        name: String::from_str(name),
        default: FeatureValue::Integer(default),
        parameters,
        enabled: true,
        meta: None,
        options: Some(values),
        limits: Some((lo, hi)),
        interval: Some(one_number()),
    };
    assert(f@ =~= resolution_feature(name@, text@, options@, default));
    f
}

/// A value between `min` and `max` in steps of `step`, starting at `default`.
pub fn feature_range(
    name: &str,
    text: &str,
    min: Number,
    max: Number,
    step: Number,
    default: Number,
) -> (f: Feature)
    requires
        min.well_formed(),
        max.well_formed(),
    ensures
        f.limits matches Some(l) ==> l.0.well_formed() && l.1.well_formed(),
        f@ == range_feature(name@, text@, min@, max@, step@, default@),
{
    let mut parameters = min.to_text();
    parameters.append("..");
    let top = max.to_text();
    parameters.append(top.as_str());
    let f = Feature {
        text: String::from_str(text),
        name: String::from_str(name),
        default: FeatureValue::Decimal(default),
        parameters,
        enabled: true,
        meta: None,
        options: None,
        limits: Some((min, max)),
        interval: Some(step),
    };
    assert(f@ =~= range_feature(name@, text@, min@, max@, step@, default@));
    f
}

/// The Epson Perfection V600 as the service offers it: its modes, depths,
/// resolutions, scan area in millimetres, formats, sources, colour settings,
/// brightness and contrast, in this order.
pub open spec fn epson_v600_model() -> DeviceView {
    DeviceView {
        id: "EpsonPerfectionV600"@,
        name: "EpsonPerfectionV600"@,
        settings: Seq::empty(),
        features: seq![
            enum_feature(
                "--mode"@,
                "--mode Binary|Gray|Color [Color]"@,
                "Binary|Gray|Color"@,
                seq!["Binary"@, "Gray"@, "Color"@],
                "Color"@,
            ),
            enum_feature("--depth"@, "--depth 8|16 [8]"@, "8|16"@, seq!["8"@, "16"@], "8"@),
            resolution_feature(
                "--resolution"@,
                "--resolution 200|400|800|1600|3200|6400dpi [400]"@,
                seq![200u32, 400, 800, 1600, 3200, 6400],
                400,
            ),
            geometry_feature(
                "-l"@,
                "-l 0..215.9mm [0]"@,
                scaled_number(false, 0, 0),
                scaled_number(false, 2159, 1),
                scaled_number(false, 0, 0),
            ),
            geometry_feature(
                "-t"@,
                "-t 0..297.18mm [0]"@,
                scaled_number(false, 0, 0),
                scaled_number(false, 29718, 2),
                scaled_number(false, 0, 0),
            ),
            geometry_feature(
                "-x"@,
                "-x 0..215.9mm [215.9]"@,
                scaled_number(false, 0, 0),
                scaled_number(false, 2159, 1),
                scaled_number(false, 2159, 1),
            ),
            geometry_feature(
                "-y"@,
                "-y 0..297.18mm [297.18]"@,
                scaled_number(false, 0, 0),
                scaled_number(false, 29718, 2),
                scaled_number(false, 29718, 2),
            ),
            enum_feature(
                "--format"@,
                "--format jpeg|jpeg-xl|png|ppm|tiff [tiff]"@,
                "jpeg|jpeg-xl|png|ppm|tiff"@,
                seq!["jpeg"@, "jpeg-xl"@, "png"@, "ppm"@, "tiff"@],
                "tiff"@,
            ),
            enum_feature(
                "--source"@,
                "--source Flatbed|Transparency Unit [Flatbed]"@,
                "Flatbed|Transparency Unit"@,
                seq!["Flatbed"@, "Transparency Unit"@],
                "Flatbed"@,
            ),
            enum_feature(
                "--gamma-correction"@,
                "--gamma-correction 1.0|1.8|2.0|2.2|2.4|2.8 [2.2]"@,
                "1.0|1.8|2.0|2.2|2.4|2.8"@,
                seq!["1.0"@, "1.8"@, "2.0"@, "2.2"@, "2.4"@, "2.8"@],
                "2.2"@,
            ),
            enum_feature(
                "--color-correction"@,
                "--color-correction[=(yes|no)] [yes]"@,
                "yes|no"@,
                seq!["yes"@, "no"@],
                "yes"@,
            ),
            enum_feature(
                "--color-space"@,
                "--color-space None|Adobe RGB (1998)|EPSON sRGB|sRGB IEC61966-2.1 [sRGB IEC61966-2.1]"@,
                "None|Adobe RGB (1998)|EPSON sRGB|sRGB IEC61966-2.1"@,
                seq!["None"@, "Adobe RGB (1998)"@, "EPSON sRGB"@, "sRGB IEC61966-2.1"@],
                "sRGB IEC61966-2.1"@,
            ),
            range_feature(
                "--brightness"@,
                "--brightness -100..100% (in steps of 1) [0]"@,
                scaled_number(true, 100, 0),
                scaled_number(false, 100, 0),
                one(),
                scaled_number(false, 0, 0),
            ),
            range_feature(
                "--contrast"@,
                "--contrast -100..100% (in steps of 1) [0]"@,
                scaled_number(true, 100, 0),
                scaled_number(false, 100, 0),
                one(),
                scaled_number(false, 0, 0),
            ),
            enum_feature(
                "--preview"@,
                "--preview yes|no [no]"@,
                "yes|no"@,
                seq!["yes"@, "no"@],
                "no"@,
            ),
            enum_feature("--speed"@, "--speed yes|no [no]"@, "yes|no"@, seq!["yes"@, "no"@], "no"@),
            enum_feature(
                "--scan-area"@,
                "--scan-area Maximum|A4|A5 Landscape|A5 Portrait|B5|Letter|Executive|CD [Maximum]"@,
                "Maximum|A4|A5 Landscape|A5 Portrait|B5|Letter|Executive|CD"@,
                seq!["Maximum"@, "A4"@, "A5 Landscape"@, "A5 Portrait"@, "B5"@, "Letter"@, "Executive"@, "CD"@],
                "Maximum"@,
            )
        ],
    }
}

/// Every feature of the Epson Perfection V600 agrees with itself (see
/// [`feature_consistent`]): its help text starts with its name, it is
/// enabled and has no note, its default is among its options and its
/// parameters spell those options out, and its limits are in order with
/// the default between them.
pub proof fn lemma_v600_features_consistent()
    ensures
        forall|i: int|
            0 <= i < epson_v600_model().features.len() ==> feature_consistent(
                #[trigger] epson_v600_model().features[i],
            ),
{
    let fs = epson_v600_model().features;
    reveal_with_fuel(pow10, 3);
    lemma_scaled_number_value(false, 0, 0);
    lemma_scaled_number_value(false, 2159, 1);
    lemma_scaled_number_value(false, 29718, 2);
    lemma_scaled_number_value(true, 100, 0);
    lemma_scaled_number_value(false, 100, 0);
    lemma_scaled_number_value(false, 200, 0);
    lemma_scaled_number_value(false, 400, 0);
    lemma_scaled_number_value(false, 6400, 0);
    assert(feature_consistent(fs[0])) by {
        reveal_strlit("--mode");
        reveal_strlit("--mode Binary|Gray|Color [Color]");
        reveal_strlit("Binary|Gray|Color");
        reveal_strlit("Binary");
        reveal_strlit("Gray");
        reveal_strlit("Color");
        let ts: Seq<Seq<char>> = seq!["Binary"@, "Gray"@, "Color"@];
        assert(ts.map_values(|o: Seq<char>| OptionView::Text(o)) =~= Seq::empty().push(OptionView::Text("Binary"@)).push(OptionView::Text("Gray"@)).push(OptionView::Text("Color"@)));
        lemma_joined_push(Seq::empty(), OptionView::Text("Binary"@));
        lemma_joined_push(Seq::empty().push(OptionView::Text("Binary"@)), OptionView::Text("Gray"@));
        lemma_joined_push(Seq::empty().push(OptionView::Text("Binary"@)).push(OptionView::Text("Gray"@)), OptionView::Text("Color"@));
        assert("--mode"@ =~= "--mode Binary|Gray|Color [Color]"@.subrange(0, 6));
        assert("Binary|Gray|Color"@ =~= joined_options(Seq::empty().push(OptionView::Text("Binary"@)).push(OptionView::Text("Gray"@)).push(OptionView::Text("Color"@))));
        lemma_enum_consistent("--mode"@, "--mode Binary|Gray|Color [Color]"@, "Binary|Gray|Color"@, ts, "Color"@, 2);
    }
    assert(feature_consistent(fs[1])) by {
        reveal_strlit("--depth");
        reveal_strlit("--depth 8|16 [8]");
        reveal_strlit("8|16");
        reveal_strlit("8");
        reveal_strlit("16");
        let ts: Seq<Seq<char>> = seq!["8"@, "16"@];
        assert(ts.map_values(|o: Seq<char>| OptionView::Text(o)) =~= Seq::empty().push(OptionView::Text("8"@)).push(OptionView::Text("16"@)));
        lemma_joined_push(Seq::empty(), OptionView::Text("8"@));
        lemma_joined_push(Seq::empty().push(OptionView::Text("8"@)), OptionView::Text("16"@));
        assert("--depth"@ =~= "--depth 8|16 [8]"@.subrange(0, 7));
        assert("8|16"@ =~= joined_options(Seq::empty().push(OptionView::Text("8"@)).push(OptionView::Text("16"@))));
        lemma_enum_consistent("--depth"@, "--depth 8|16 [8]"@, "8|16"@, ts, "8"@, 0);
    }
    assert(feature_consistent(fs[7])) by {
        reveal_strlit("--format");
        reveal_strlit("--format jpeg|jpeg-xl|png|ppm|tiff [tiff]");
        reveal_strlit("jpeg|jpeg-xl|png|ppm|tiff");
        reveal_strlit("jpeg");
        reveal_strlit("jpeg-xl");
        reveal_strlit("png");
        reveal_strlit("ppm");
        reveal_strlit("tiff");
        let ts: Seq<Seq<char>> = seq!["jpeg"@, "jpeg-xl"@, "png"@, "ppm"@, "tiff"@];
        assert(ts.map_values(|o: Seq<char>| OptionView::Text(o)) =~= Seq::empty().push(OptionView::Text("jpeg"@)).push(OptionView::Text("jpeg-xl"@)).push(OptionView::Text("png"@)).push(OptionView::Text("ppm"@)).push(OptionView::Text("tiff"@)));
        lemma_joined_push(Seq::empty(), OptionView::Text("jpeg"@));
        lemma_joined_push(Seq::empty().push(OptionView::Text("jpeg"@)), OptionView::Text("jpeg-xl"@));
        lemma_joined_push(Seq::empty().push(OptionView::Text("jpeg"@)).push(OptionView::Text("jpeg-xl"@)), OptionView::Text("png"@));
        lemma_joined_push(Seq::empty().push(OptionView::Text("jpeg"@)).push(OptionView::Text("jpeg-xl"@)).push(OptionView::Text("png"@)), OptionView::Text("ppm"@));
        lemma_joined_push(Seq::empty().push(OptionView::Text("jpeg"@)).push(OptionView::Text("jpeg-xl"@)).push(OptionView::Text("png"@)).push(OptionView::Text("ppm"@)), OptionView::Text("tiff"@));
        assert("--format"@ =~= "--format jpeg|jpeg-xl|png|ppm|tiff [tiff]"@.subrange(0, 8));
        assert("jpeg|jpeg-xl|png|ppm|tiff"@ =~= joined_options(Seq::empty().push(OptionView::Text("jpeg"@)).push(OptionView::Text("jpeg-xl"@)).push(OptionView::Text("png"@)).push(OptionView::Text("ppm"@)).push(OptionView::Text("tiff"@))));
        lemma_enum_consistent("--format"@, "--format jpeg|jpeg-xl|png|ppm|tiff [tiff]"@, "jpeg|jpeg-xl|png|ppm|tiff"@, ts, "tiff"@, 4);
    }
    assert(feature_consistent(fs[8])) by {
        reveal_strlit("--source");
        reveal_strlit("--source Flatbed|Transparency Unit [Flatbed]");
        reveal_strlit("Flatbed|Transparency Unit");
        reveal_strlit("Flatbed");
        reveal_strlit("Transparency Unit");
        let ts: Seq<Seq<char>> = seq!["Flatbed"@, "Transparency Unit"@];
        assert(ts.map_values(|o: Seq<char>| OptionView::Text(o)) =~= Seq::empty().push(OptionView::Text("Flatbed"@)).push(OptionView::Text("Transparency Unit"@)));
        lemma_joined_push(Seq::empty(), OptionView::Text("Flatbed"@));
        lemma_joined_push(Seq::empty().push(OptionView::Text("Flatbed"@)), OptionView::Text("Transparency Unit"@));
        assert("--source"@ =~= "--source Flatbed|Transparency Unit [Flatbed]"@.subrange(0, 8));
        assert("Flatbed|Transparency Unit"@ =~= joined_options(Seq::empty().push(OptionView::Text("Flatbed"@)).push(OptionView::Text("Transparency Unit"@))));
        lemma_enum_consistent("--source"@, "--source Flatbed|Transparency Unit [Flatbed]"@, "Flatbed|Transparency Unit"@, ts, "Flatbed"@, 0);
    }
    assert(feature_consistent(fs[9])) by {
        reveal_strlit("--gamma-correction");
        reveal_strlit("--gamma-correction 1.0|1.8|2.0|2.2|2.4|2.8 [2.2]");
        reveal_strlit("1.0|1.8|2.0|2.2|2.4|2.8");
        reveal_strlit("1.0");
        reveal_strlit("1.8");
        reveal_strlit("2.0");
        reveal_strlit("2.2");
        reveal_strlit("2.4");
        reveal_strlit("2.8");
        let ts: Seq<Seq<char>> = seq!["1.0"@, "1.8"@, "2.0"@, "2.2"@, "2.4"@, "2.8"@];
        assert(ts.map_values(|o: Seq<char>| OptionView::Text(o)) =~= Seq::empty().push(OptionView::Text("1.0"@)).push(OptionView::Text("1.8"@)).push(OptionView::Text("2.0"@)).push(OptionView::Text("2.2"@)).push(OptionView::Text("2.4"@)).push(OptionView::Text("2.8"@)));
        lemma_joined_push(Seq::empty(), OptionView::Text("1.0"@));
        lemma_joined_push(Seq::empty().push(OptionView::Text("1.0"@)), OptionView::Text("1.8"@));
        lemma_joined_push(Seq::empty().push(OptionView::Text("1.0"@)).push(OptionView::Text("1.8"@)), OptionView::Text("2.0"@));
        lemma_joined_push(Seq::empty().push(OptionView::Text("1.0"@)).push(OptionView::Text("1.8"@)).push(OptionView::Text("2.0"@)), OptionView::Text("2.2"@));
        lemma_joined_push(Seq::empty().push(OptionView::Text("1.0"@)).push(OptionView::Text("1.8"@)).push(OptionView::Text("2.0"@)).push(OptionView::Text("2.2"@)), OptionView::Text("2.4"@));
        lemma_joined_push(Seq::empty().push(OptionView::Text("1.0"@)).push(OptionView::Text("1.8"@)).push(OptionView::Text("2.0"@)).push(OptionView::Text("2.2"@)).push(OptionView::Text("2.4"@)), OptionView::Text("2.8"@));
        assert("--gamma-correction"@ =~= "--gamma-correction 1.0|1.8|2.0|2.2|2.4|2.8 [2.2]"@.subrange(0, 18));
        assert("1.0|1.8|2.0|2.2|2.4|2.8"@ =~= joined_options(Seq::empty().push(OptionView::Text("1.0"@)).push(OptionView::Text("1.8"@)).push(OptionView::Text("2.0"@)).push(OptionView::Text("2.2"@)).push(OptionView::Text("2.4"@)).push(OptionView::Text("2.8"@))));
        lemma_enum_consistent("--gamma-correction"@, "--gamma-correction 1.0|1.8|2.0|2.2|2.4|2.8 [2.2]"@, "1.0|1.8|2.0|2.2|2.4|2.8"@, ts, "2.2"@, 3);
    }
    assert(feature_consistent(fs[10])) by {
        reveal_strlit("--color-correction");
        reveal_strlit("--color-correction[=(yes|no)] [yes]");
        reveal_strlit("yes|no");
        reveal_strlit("yes");
        reveal_strlit("no");
        let ts: Seq<Seq<char>> = seq!["yes"@, "no"@];
        assert(ts.map_values(|o: Seq<char>| OptionView::Text(o)) =~= Seq::empty().push(OptionView::Text("yes"@)).push(OptionView::Text("no"@)));
        lemma_joined_push(Seq::empty(), OptionView::Text("yes"@));
        lemma_joined_push(Seq::empty().push(OptionView::Text("yes"@)), OptionView::Text("no"@));
        assert("--color-correction"@ =~= "--color-correction[=(yes|no)] [yes]"@.subrange(0, 18));
        assert("yes|no"@ =~= joined_options(Seq::empty().push(OptionView::Text("yes"@)).push(OptionView::Text("no"@))));
        lemma_enum_consistent("--color-correction"@, "--color-correction[=(yes|no)] [yes]"@, "yes|no"@, ts, "yes"@, 0);
    }
    assert(feature_consistent(fs[11])) by {
        reveal_strlit("--color-space");
        reveal_strlit("--color-space None|Adobe RGB (1998)|EPSON sRGB|sRGB IEC61966-2.1 [sRGB IEC61966-2.1]");
        reveal_strlit("None|Adobe RGB (1998)|EPSON sRGB|sRGB IEC61966-2.1");
        reveal_strlit("None");
        reveal_strlit("Adobe RGB (1998)");
        reveal_strlit("EPSON sRGB");
        reveal_strlit("sRGB IEC61966-2.1");
        let ts: Seq<Seq<char>> = seq!["None"@, "Adobe RGB (1998)"@, "EPSON sRGB"@, "sRGB IEC61966-2.1"@];
        assert(ts.map_values(|o: Seq<char>| OptionView::Text(o)) =~= Seq::empty().push(OptionView::Text("None"@)).push(OptionView::Text("Adobe RGB (1998)"@)).push(OptionView::Text("EPSON sRGB"@)).push(OptionView::Text("sRGB IEC61966-2.1"@)));
        lemma_joined_push(Seq::empty(), OptionView::Text("None"@));
        lemma_joined_push(Seq::empty().push(OptionView::Text("None"@)), OptionView::Text("Adobe RGB (1998)"@));
        lemma_joined_push(Seq::empty().push(OptionView::Text("None"@)).push(OptionView::Text("Adobe RGB (1998)"@)), OptionView::Text("EPSON sRGB"@));
        lemma_joined_push(Seq::empty().push(OptionView::Text("None"@)).push(OptionView::Text("Adobe RGB (1998)"@)).push(OptionView::Text("EPSON sRGB"@)), OptionView::Text("sRGB IEC61966-2.1"@));
        assert("--color-space"@ =~= "--color-space None|Adobe RGB (1998)|EPSON sRGB|sRGB IEC61966-2.1 [sRGB IEC61966-2.1]"@.subrange(0, 13));
        assert("None|Adobe RGB (1998)|EPSON sRGB|sRGB IEC61966-2.1"@ =~= joined_options(Seq::empty().push(OptionView::Text("None"@)).push(OptionView::Text("Adobe RGB (1998)"@)).push(OptionView::Text("EPSON sRGB"@)).push(OptionView::Text("sRGB IEC61966-2.1"@))));
        lemma_enum_consistent("--color-space"@, "--color-space None|Adobe RGB (1998)|EPSON sRGB|sRGB IEC61966-2.1 [sRGB IEC61966-2.1]"@, "None|Adobe RGB (1998)|EPSON sRGB|sRGB IEC61966-2.1"@, ts, "sRGB IEC61966-2.1"@, 3);
    }
    assert(feature_consistent(fs[14])) by {
        reveal_strlit("--preview");
        reveal_strlit("--preview yes|no [no]");
        reveal_strlit("yes|no");
        reveal_strlit("yes");
        reveal_strlit("no");
        let ts: Seq<Seq<char>> = seq!["yes"@, "no"@];
        assert(ts.map_values(|o: Seq<char>| OptionView::Text(o)) =~= Seq::empty().push(OptionView::Text("yes"@)).push(OptionView::Text("no"@)));
        lemma_joined_push(Seq::empty(), OptionView::Text("yes"@));
        lemma_joined_push(Seq::empty().push(OptionView::Text("yes"@)), OptionView::Text("no"@));
        assert("--preview"@ =~= "--preview yes|no [no]"@.subrange(0, 9));
        assert("yes|no"@ =~= joined_options(Seq::empty().push(OptionView::Text("yes"@)).push(OptionView::Text("no"@))));
        lemma_enum_consistent("--preview"@, "--preview yes|no [no]"@, "yes|no"@, ts, "no"@, 1);
    }
    assert(feature_consistent(fs[15])) by {
        reveal_strlit("--speed");
        reveal_strlit("--speed yes|no [no]");
        reveal_strlit("yes|no");
        reveal_strlit("yes");
        reveal_strlit("no");
        let ts: Seq<Seq<char>> = seq!["yes"@, "no"@];
        assert(ts.map_values(|o: Seq<char>| OptionView::Text(o)) =~= Seq::empty().push(OptionView::Text("yes"@)).push(OptionView::Text("no"@)));
        lemma_joined_push(Seq::empty(), OptionView::Text("yes"@));
        lemma_joined_push(Seq::empty().push(OptionView::Text("yes"@)), OptionView::Text("no"@));
        assert("--speed"@ =~= "--speed yes|no [no]"@.subrange(0, 7));
        assert("yes|no"@ =~= joined_options(Seq::empty().push(OptionView::Text("yes"@)).push(OptionView::Text("no"@))));
        lemma_enum_consistent("--speed"@, "--speed yes|no [no]"@, "yes|no"@, ts, "no"@, 1);
    }
    assert(feature_consistent(fs[16])) by {
        reveal_strlit("--scan-area");
        reveal_strlit("--scan-area Maximum|A4|A5 Landscape|A5 Portrait|B5|Letter|Executive|CD [Maximum]");
        reveal_strlit("Maximum|A4|A5 Landscape|A5 Portrait|B5|Letter|Executive|CD");
        reveal_strlit("Maximum");
        reveal_strlit("A4");
        reveal_strlit("A5 Landscape");
        reveal_strlit("A5 Portrait");
        reveal_strlit("B5");
        reveal_strlit("Letter");
        reveal_strlit("Executive");
        reveal_strlit("CD");
        let ts: Seq<Seq<char>> = seq!["Maximum"@, "A4"@, "A5 Landscape"@, "A5 Portrait"@, "B5"@, "Letter"@, "Executive"@, "CD"@];
        assert(ts.map_values(|o: Seq<char>| OptionView::Text(o)) =~= Seq::empty().push(OptionView::Text("Maximum"@)).push(OptionView::Text("A4"@)).push(OptionView::Text("A5 Landscape"@)).push(OptionView::Text("A5 Portrait"@)).push(OptionView::Text("B5"@)).push(OptionView::Text("Letter"@)).push(OptionView::Text("Executive"@)).push(OptionView::Text("CD"@)));
        lemma_joined_push(Seq::empty(), OptionView::Text("Maximum"@));
        lemma_joined_push(Seq::empty().push(OptionView::Text("Maximum"@)), OptionView::Text("A4"@));
        lemma_joined_push(Seq::empty().push(OptionView::Text("Maximum"@)).push(OptionView::Text("A4"@)), OptionView::Text("A5 Landscape"@));
        lemma_joined_push(Seq::empty().push(OptionView::Text("Maximum"@)).push(OptionView::Text("A4"@)).push(OptionView::Text("A5 Landscape"@)), OptionView::Text("A5 Portrait"@));
        lemma_joined_push(Seq::empty().push(OptionView::Text("Maximum"@)).push(OptionView::Text("A4"@)).push(OptionView::Text("A5 Landscape"@)).push(OptionView::Text("A5 Portrait"@)), OptionView::Text("B5"@));
        lemma_joined_push(Seq::empty().push(OptionView::Text("Maximum"@)).push(OptionView::Text("A4"@)).push(OptionView::Text("A5 Landscape"@)).push(OptionView::Text("A5 Portrait"@)).push(OptionView::Text("B5"@)), OptionView::Text("Letter"@));
        lemma_joined_push(Seq::empty().push(OptionView::Text("Maximum"@)).push(OptionView::Text("A4"@)).push(OptionView::Text("A5 Landscape"@)).push(OptionView::Text("A5 Portrait"@)).push(OptionView::Text("B5"@)).push(OptionView::Text("Letter"@)), OptionView::Text("Executive"@));
        lemma_joined_push(Seq::empty().push(OptionView::Text("Maximum"@)).push(OptionView::Text("A4"@)).push(OptionView::Text("A5 Landscape"@)).push(OptionView::Text("A5 Portrait"@)).push(OptionView::Text("B5"@)).push(OptionView::Text("Letter"@)).push(OptionView::Text("Executive"@)), OptionView::Text("CD"@));
        assert("--scan-area"@ =~= "--scan-area Maximum|A4|A5 Landscape|A5 Portrait|B5|Letter|Executive|CD [Maximum]"@.subrange(0, 11));
        assert("Maximum|A4|A5 Landscape|A5 Portrait|B5|Letter|Executive|CD"@ =~= joined_options(Seq::empty().push(OptionView::Text("Maximum"@)).push(OptionView::Text("A4"@)).push(OptionView::Text("A5 Landscape"@)).push(OptionView::Text("A5 Portrait"@)).push(OptionView::Text("B5"@)).push(OptionView::Text("Letter"@)).push(OptionView::Text("Executive"@)).push(OptionView::Text("CD"@))));
        lemma_enum_consistent("--scan-area"@, "--scan-area Maximum|A4|A5 Landscape|A5 Portrait|B5|Letter|Executive|CD [Maximum]"@, "Maximum|A4|A5 Landscape|A5 Portrait|B5|Letter|Executive|CD"@, ts, "Maximum"@, 0);
    }
    assert(feature_consistent(fs[3])) by {
        reveal_strlit("-l");
        reveal_strlit("-l 0..215.9mm [0]");
        assert("-l"@ =~= "-l 0..215.9mm [0]"@.subrange(0, 2));
        lemma_geometry_consistent("-l"@, "-l 0..215.9mm [0]"@, scaled_number(false, 0, 0), scaled_number(false, 2159, 1), scaled_number(false, 0, 0));
    }
    assert(feature_consistent(fs[4])) by {
        reveal_strlit("-t");
        reveal_strlit("-t 0..297.18mm [0]");
        assert("-t"@ =~= "-t 0..297.18mm [0]"@.subrange(0, 2));
        lemma_geometry_consistent("-t"@, "-t 0..297.18mm [0]"@, scaled_number(false, 0, 0), scaled_number(false, 29718, 2), scaled_number(false, 0, 0));
    }
    assert(feature_consistent(fs[5])) by {
        reveal_strlit("-x");
        reveal_strlit("-x 0..215.9mm [215.9]");
        assert("-x"@ =~= "-x 0..215.9mm [215.9]"@.subrange(0, 2));
        lemma_geometry_consistent("-x"@, "-x 0..215.9mm [215.9]"@, scaled_number(false, 0, 0), scaled_number(false, 2159, 1), scaled_number(false, 2159, 1));
    }
    assert(feature_consistent(fs[6])) by {
        reveal_strlit("-y");
        reveal_strlit("-y 0..297.18mm [297.18]");
        assert("-y"@ =~= "-y 0..297.18mm [297.18]"@.subrange(0, 2));
        lemma_geometry_consistent("-y"@, "-y 0..297.18mm [297.18]"@, scaled_number(false, 0, 0), scaled_number(false, 29718, 2), scaled_number(false, 29718, 2));
    }
    assert(feature_consistent(fs[12])) by {
        reveal_strlit("--brightness");
        reveal_strlit("--brightness -100..100% (in steps of 1) [0]");
        assert("--brightness"@ =~= "--brightness -100..100% (in steps of 1) [0]"@.subrange(0, 12));
        lemma_range_consistent("--brightness"@, "--brightness -100..100% (in steps of 1) [0]"@, scaled_number(true, 100, 0), scaled_number(false, 100, 0), one(), scaled_number(false, 0, 0));
    }
    assert(feature_consistent(fs[13])) by {
        reveal_strlit("--contrast");
        reveal_strlit("--contrast -100..100% (in steps of 1) [0]");
        assert("--contrast"@ =~= "--contrast -100..100% (in steps of 1) [0]"@.subrange(0, 10));
        lemma_range_consistent("--contrast"@, "--contrast -100..100% (in steps of 1) [0]"@, scaled_number(true, 100, 0), scaled_number(false, 100, 0), one(), scaled_number(false, 0, 0));
    }

    assert(feature_consistent(fs[2])) by {
        reveal_strlit("--resolution");
        reveal_strlit("--resolution 200|400|800|1600|3200|6400dpi [400]");
        assert("--resolution"@ =~= "--resolution 200|400|800|1600|3200|6400dpi [400]"@.subrange(0, 12));
        let s = seq![200u32, 400, 800, 1600, 3200, 6400];
        let os = s.map_values(|n: u32| OptionView::Integer(n));
        lemma_joined_numbers(s);
        assert(value_is_option(fs[2].default, os[1]));
    }
}

/// The description of the Epson Perfection V600 scanner.
pub fn epson_v600() -> (d: Device)
    ensures
        d@ == epson_v600_model(),
        d.well_formed(),
{
    let opts_0 = vec!["Binary", "Gray", "Color"];
    assert(text_views(opts_0@) =~= seq!["Binary"@, "Gray"@, "Color"@]);
    let feature_0 = feature_enum(
        "--mode",
        "--mode Binary|Gray|Color [Color]",
        "Binary|Gray|Color",
        opts_0.as_slice(),
        "Color",
    );
    assert(feature_0@ == enum_feature(
        "--mode"@,
        "--mode Binary|Gray|Color [Color]"@,
        "Binary|Gray|Color"@,
        seq!["Binary"@, "Gray"@, "Color"@],
        "Color"@,
    ));
    let opts_1 = vec!["8", "16"];
    assert(text_views(opts_1@) =~= seq!["8"@, "16"@]);
    let feature_1 = feature_enum("--depth", "--depth 8|16 [8]", "8|16", opts_1.as_slice(), "8");
    assert(feature_1@ == enum_feature(
        "--depth"@,
        "--depth 8|16 [8]"@,
        "8|16"@,
        seq!["8"@, "16"@],
        "8"@,
    ));
    let opts_2: Vec<u32> = vec![200, 400, 800, 1600, 3200, 6400];
    assert(opts_2@ =~= seq![200, 400, 800, 1600, 3200, 6400]);
    let feature_2 = feature_resolution(
        "--resolution",
        "--resolution 200|400|800|1600|3200|6400dpi [400]",
        opts_2.as_slice(),
        400,
    );
    assert(feature_2@ == resolution_feature(
        "--resolution"@,
        "--resolution 200|400|800|1600|3200|6400dpi [400]"@,
        seq![200u32, 400, 800, 1600, 3200, 6400],
        400,
    ));
    let feature_3 = feature_geometry(
        "-l",
        "-l 0..215.9mm [0]",
        Number::scaled(false, 0, 0),
        Number::scaled(false, 2159, 1),
        Number::scaled(false, 0, 0),
    );
    assert(feature_3@ == geometry_feature(
        "-l"@,
        "-l 0..215.9mm [0]"@,
        scaled_number(false, 0, 0),
        scaled_number(false, 2159, 1),
        scaled_number(false, 0, 0),
    ));
    let feature_4 = feature_geometry(
        "-t",
        "-t 0..297.18mm [0]",
        Number::scaled(false, 0, 0),
        Number::scaled(false, 29718, 2),
        Number::scaled(false, 0, 0),
    );
    assert(feature_4@ == geometry_feature(
        "-t"@,
        "-t 0..297.18mm [0]"@,
        scaled_number(false, 0, 0),
        scaled_number(false, 29718, 2),
        scaled_number(false, 0, 0),
    ));
    let feature_5 = feature_geometry(
        "-x",
        "-x 0..215.9mm [215.9]",
        Number::scaled(false, 0, 0),
        Number::scaled(false, 2159, 1),
        Number::scaled(false, 2159, 1),
    );
    assert(feature_5@ == geometry_feature(
        "-x"@,
        "-x 0..215.9mm [215.9]"@,
        scaled_number(false, 0, 0),
        scaled_number(false, 2159, 1),
        scaled_number(false, 2159, 1),
    ));
    let feature_6 = feature_geometry(
        "-y",
        "-y 0..297.18mm [297.18]",
        Number::scaled(false, 0, 0),
        Number::scaled(false, 29718, 2),
        Number::scaled(false, 29718, 2),
    );
    assert(feature_6@ == geometry_feature(
        "-y"@,
        "-y 0..297.18mm [297.18]"@,
        scaled_number(false, 0, 0),
        scaled_number(false, 29718, 2),
        scaled_number(false, 29718, 2),
    ));
    let opts_7 = vec!["jpeg", "jpeg-xl", "png", "ppm", "tiff"];
    assert(text_views(opts_7@) =~= seq!["jpeg"@, "jpeg-xl"@, "png"@, "ppm"@, "tiff"@]);
    let feature_7 = feature_enum(
        "--format",
        "--format jpeg|jpeg-xl|png|ppm|tiff [tiff]",
        "jpeg|jpeg-xl|png|ppm|tiff",
        opts_7.as_slice(),
        "tiff",
    );
    assert(feature_7@ == enum_feature(
        "--format"@,
        "--format jpeg|jpeg-xl|png|ppm|tiff [tiff]"@,
        "jpeg|jpeg-xl|png|ppm|tiff"@,
        seq!["jpeg"@, "jpeg-xl"@, "png"@, "ppm"@, "tiff"@],
        "tiff"@,
    ));
    let opts_8 = vec!["Flatbed", "Transparency Unit"];
    assert(text_views(opts_8@) =~= seq!["Flatbed"@, "Transparency Unit"@]);
    let feature_8 = feature_enum(
        "--source",
        "--source Flatbed|Transparency Unit [Flatbed]",
        "Flatbed|Transparency Unit",
        opts_8.as_slice(),
        "Flatbed",
    );
    assert(feature_8@ == enum_feature(
        "--source"@,
        "--source Flatbed|Transparency Unit [Flatbed]"@,
        "Flatbed|Transparency Unit"@,
        seq!["Flatbed"@, "Transparency Unit"@],
        "Flatbed"@,
    ));
    let opts_9 = vec!["1.0", "1.8", "2.0", "2.2", "2.4", "2.8"];
    assert(text_views(opts_9@) =~= seq!["1.0"@, "1.8"@, "2.0"@, "2.2"@, "2.4"@, "2.8"@]);
    let feature_9 = feature_enum(
        "--gamma-correction",
        "--gamma-correction 1.0|1.8|2.0|2.2|2.4|2.8 [2.2]",
        "1.0|1.8|2.0|2.2|2.4|2.8",
        opts_9.as_slice(),
        "2.2",
    );
    assert(feature_9@ == enum_feature(
        "--gamma-correction"@,
        "--gamma-correction 1.0|1.8|2.0|2.2|2.4|2.8 [2.2]"@,
        "1.0|1.8|2.0|2.2|2.4|2.8"@,
        seq!["1.0"@, "1.8"@, "2.0"@, "2.2"@, "2.4"@, "2.8"@],
        "2.2"@,
    ));
    let opts_10 = vec!["yes", "no"];
    assert(text_views(opts_10@) =~= seq!["yes"@, "no"@]);
    let feature_10 = feature_enum(
        "--color-correction",
        "--color-correction[=(yes|no)] [yes]",
        "yes|no",
        opts_10.as_slice(),
        "yes",
    );
    assert(feature_10@ == enum_feature(
        "--color-correction"@,
        "--color-correction[=(yes|no)] [yes]"@,
        "yes|no"@,
        seq!["yes"@, "no"@],
        "yes"@,
    ));
    let opts_11 = vec!["None", "Adobe RGB (1998)", "EPSON sRGB", "sRGB IEC61966-2.1"];
    assert(text_views(opts_11@) =~= seq!["None"@, "Adobe RGB (1998)"@, "EPSON sRGB"@, "sRGB IEC61966-2.1"@]);
    let feature_11 = feature_enum(
        "--color-space",
        "--color-space None|Adobe RGB (1998)|EPSON sRGB|sRGB IEC61966-2.1 [sRGB IEC61966-2.1]",
        "None|Adobe RGB (1998)|EPSON sRGB|sRGB IEC61966-2.1",
        opts_11.as_slice(),
        "sRGB IEC61966-2.1",
    );
    assert(feature_11@ == enum_feature(
        "--color-space"@,
        "--color-space None|Adobe RGB (1998)|EPSON sRGB|sRGB IEC61966-2.1 [sRGB IEC61966-2.1]"@,
        "None|Adobe RGB (1998)|EPSON sRGB|sRGB IEC61966-2.1"@,
        seq!["None"@, "Adobe RGB (1998)"@, "EPSON sRGB"@, "sRGB IEC61966-2.1"@],
        "sRGB IEC61966-2.1"@,
    ));
    let feature_12 = feature_range(
        "--brightness",
        "--brightness -100..100% (in steps of 1) [0]",
        Number::scaled(true, 100, 0),
        Number::scaled(false, 100, 0),
        one_number(),
        Number::scaled(false, 0, 0),
    );
    assert(feature_12@ == range_feature(
        "--brightness"@,
        "--brightness -100..100% (in steps of 1) [0]"@,
        scaled_number(true, 100, 0),
        scaled_number(false, 100, 0),
        one(),
        scaled_number(false, 0, 0),
    ));
    let feature_13 = feature_range(
        "--contrast",
        "--contrast -100..100% (in steps of 1) [0]",
        Number::scaled(true, 100, 0),
        Number::scaled(false, 100, 0),
        one_number(),
        Number::scaled(false, 0, 0),
    );
    assert(feature_13@ == range_feature(
        "--contrast"@,
        "--contrast -100..100% (in steps of 1) [0]"@,
        scaled_number(true, 100, 0),
        scaled_number(false, 100, 0),
        one(),
        scaled_number(false, 0, 0),
    ));
    let opts_14 = vec!["yes", "no"];
    assert(text_views(opts_14@) =~= seq!["yes"@, "no"@]);
    let feature_14 = feature_enum(
        "--preview",
        "--preview yes|no [no]",
        "yes|no",
        opts_14.as_slice(),
        "no",
    );
    assert(feature_14@ == enum_feature(
        "--preview"@,
        "--preview yes|no [no]"@,
        "yes|no"@,
        seq!["yes"@, "no"@],
        "no"@,
    ));
    let opts_15 = vec!["yes", "no"];
    assert(text_views(opts_15@) =~= seq!["yes"@, "no"@]);
    let feature_15 = feature_enum(
        "--speed",
        "--speed yes|no [no]",
        "yes|no",
        opts_15.as_slice(),
        "no",
    );
    assert(feature_15@ == enum_feature(
        "--speed"@,
        "--speed yes|no [no]"@,
        "yes|no"@,
        seq!["yes"@, "no"@],
        "no"@,
    ));
    let opts_16 = vec!["Maximum", "A4", "A5 Landscape", "A5 Portrait", "B5", "Letter", "Executive", "CD"];
    assert(text_views(opts_16@) =~= seq![
        "Maximum"@,
        "A4"@,
        "A5 Landscape"@,
        "A5 Portrait"@,
        "B5"@,
        "Letter"@,
        "Executive"@,
        "CD"@,
    ]);
    let feature_16 = feature_enum(
        "--scan-area",
        "--scan-area Maximum|A4|A5 Landscape|A5 Portrait|B5|Letter|Executive|CD [Maximum]",
        "Maximum|A4|A5 Landscape|A5 Portrait|B5|Letter|Executive|CD",
        opts_16.as_slice(),
        "Maximum",
    );
    assert(feature_16@ == enum_feature(
        "--scan-area"@,
        "--scan-area Maximum|A4|A5 Landscape|A5 Portrait|B5|Letter|Executive|CD [Maximum]"@,
        "Maximum|A4|A5 Landscape|A5 Portrait|B5|Letter|Executive|CD"@,
        seq!["Maximum"@, "A4"@, "A5 Landscape"@, "A5 Portrait"@, "B5"@, "Letter"@, "Executive"@, "CD"@],
        "Maximum"@,
    ));
    let features = vec![
        feature_0,
        feature_1,
        feature_2,
        feature_3,
        feature_4,
        feature_5,
        feature_6,
        feature_7,
        feature_8,
        feature_9,
        feature_10,
        feature_11,
        feature_12,
        feature_13,
        feature_14,
        feature_15,
        feature_16,
    ];
    let d = Device {
        id: String::from_str("EpsonPerfectionV600"),
        name: String::from_str("EpsonPerfectionV600"),
        features,
        settings: Vec::new(),
    };
    assert(d@.features =~= epson_v600_model().features);
    assert(d@.settings =~= Seq::<(Seq<char>, ValueView)>::empty());
    proof {
        lemma_v600_names_distinct();
    }
    d
}

} // verus!

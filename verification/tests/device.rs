use app_server::device::{
    epson_v600, feature_enum, feature_geometry, feature_range, feature_resolution, FeatureValue,
    OptionValue,
};
use app_server::number::{compare_numbers, Number};

fn num(text: &str) -> Number {
    Number::parse(text).unwrap()
}

#[test]
fn epson_v600_has_expected_features() {
    let device = epson_v600();
    assert_eq!(device.id, "EpsonPerfectionV600");

    let res = device.feature("--resolution").unwrap();
    assert_eq!(res.default, FeatureValue::Integer(400));
    let opts: Vec<OptionValue> = vec![200, 400, 800, 1600, 3200, 6400]
        .into_iter()
        .map(OptionValue::Integer)
        .collect();
    assert_eq!(res.options.as_ref().unwrap(), &opts);
    assert_eq!(res.limits, Some((num("200"), num("6400"))));

    let mode = device.feature("--mode").unwrap();
    assert_eq!(mode.default, FeatureValue::Text("Color".to_string()));
    let mode_opts: Vec<OptionValue> = ["Binary", "Gray", "Color"]
        .iter()
        .map(|v| OptionValue::Text(v.to_string()))
        .collect();
    assert_eq!(mode.options.as_ref().unwrap(), &mode_opts);

    let source = device.feature("--source").unwrap();
    assert_eq!(source.default, FeatureValue::Text("Flatbed".to_string()));

    let x = device.feature("-x").unwrap();
    assert_eq!(x.limits, Some((num("0"), num("215.9"))));
    assert_eq!(x.default, FeatureValue::Decimal(num("215.9")));

    let gamma = device.feature("--gamma-correction").unwrap();
    assert_eq!(gamma.default, FeatureValue::Text("2.2".to_string()));

    let color_space = device.feature("--color-space").unwrap();
    assert_eq!(color_space.default, FeatureValue::Text("sRGB IEC61966-2.1".to_string()));

    let format = device.feature("--format").unwrap();
    assert_eq!(format.default, FeatureValue::Text("tiff".to_string()));
}

#[test]
fn epson_v600_describes_ranges_in_text() {
    let device = epson_v600();
    assert_eq!(device.features.len(), 17);
    assert_eq!(device.feature("-y").unwrap().parameters, "0..297.18mm");
    assert_eq!(device.feature("--brightness").unwrap().parameters, "-100..100");
    assert_eq!(device.feature("--resolution").unwrap().parameters, "200|400|800|1600|3200|6400");
    assert_eq!(device.feature("--contrast").unwrap().interval, Some(num("1")));
    assert!(device.feature("--nothing").is_none());
}

#[test]
fn numbers_read_back_as_written() {
    for t in ["0", "-0", "215.9", "297.18", "-100", "0.000001", "12.50"] {
        assert_eq!(num(t).to_text(), t);
    }
    for t in ["", "-", ".5", "5.", "1.2.3", "1e5", "+1", "a"] {
        assert!(Number::parse(t).is_none(), "{t}");
    }
    assert_eq!(Number::scaled(false, 2159, 1), num("215.9"));
    assert_eq!(Number::scaled(false, 5, 3), num("0.005"));
    assert_eq!(Number::scaled(true, 100, 0), num("-100"));
}

#[test]
fn numbers_compare_by_value() {
    assert_eq!(compare_numbers(&num("215.9"), &num("215.90")), 0);
    assert_eq!(compare_numbers(&num("-0"), &num("0")), 0);
    assert_eq!(compare_numbers(&num("9.99"), &num("10")), -1);
    assert_eq!(compare_numbers(&num("-3"), &num("-2.5")), -1);
    assert_eq!(compare_numbers(&num("0.01"), &num("-100")), 1);
}

#[test]
fn v600_feature_names_are_distinct() {
    let device = epson_v600();
    for (i, a) in device.features.iter().enumerate() {
        for b in &device.features[i + 1..] {
            assert_ne!(a.name, b.name);
        }
        assert_eq!(device.feature(&a.name).unwrap(), a);
    }
}

#[test]
fn v600_starts_with_no_settings() {
    let device = epson_v600();
    assert!(device.settings.is_empty());
    assert_eq!(device.name, device.id);
    assert_eq!(device.features.len(), 17);
}

#[test]
fn v600_features_agree_with_themselves() {
    let device = epson_v600();
    for f in &device.features {
        assert!(f.text.starts_with(&f.name));
        assert!(f.enabled);
        assert!(f.meta.is_none());
        if let Some(options) = &f.options {
            let words: Vec<String> = options
                .iter()
                .map(|o| match o {
                    OptionValue::Text(t) => t.clone(),
                    OptionValue::Integer(n) => n.to_string(),
                })
                .collect();
            assert_eq!(f.parameters, words.join("|"));
            let listed = options.iter().any(|o| match (o, &f.default) {
                (OptionValue::Text(a), FeatureValue::Text(b)) => a == b,
                (OptionValue::Integer(a), FeatureValue::Integer(b)) => a == b,
                _ => false,
            });
            assert!(listed, "{}", f.name);
        }
        if let Some((lo, hi)) = &f.limits {
            assert!(compare_numbers(hi, lo) >= 0);
            let d = match &f.default {
                FeatureValue::Integer(n) => num(&n.to_string()),
                FeatureValue::Decimal(x) => x.clone(),
                FeatureValue::Text(_) => panic!("text default with limits"),
            };
            assert!(compare_numbers(&d, lo) >= 0 && compare_numbers(hi, &d) >= 0, "{}", f.name);
        }
    }
}

#[test]
fn resolution_feature_ranges_from_first_to_last() {
    let f = feature_resolution("--res", "--res 300|100 [100]", &[300, 100], 100);
    assert_eq!(f.parameters, "300|100");
    assert_eq!(f.limits, Some((num("300"), num("100"))));
    assert_eq!(f.options, Some(vec![OptionValue::Integer(300), OptionValue::Integer(100)]));
    assert_eq!(f.default, FeatureValue::Integer(100));
    assert_eq!(f.interval, Some(num("1")));
    assert!(f.enabled);
    assert_eq!(f.meta, None);
}

#[test]
fn geometry_and_range_features_spell_their_limits() {
    let g = feature_geometry("-x", "-x 0..215.9mm [215.9]", num("0"), num("215.9"), num("215.9"));
    assert_eq!(g.parameters, "0..215.9mm");
    assert_eq!(g.limits, Some((num("0"), num("215.9"))));
    let r = feature_range("--b", "--b -100..100", num("-100"), num("100"), num("1"), num("0"));
    assert_eq!(r.parameters, "-100..100");
    assert_eq!(r.interval, Some(num("1")));
    let e = feature_enum("--m", "--m a|b [a]", "a|b", &["a", "b"], "a");
    assert_eq!(e.options, Some(vec![OptionValue::Text("a".into()), OptionValue::Text("b".into())]));
    assert_eq!(e.limits, None);
}

use recipier::edit::EditedTime;
use recipier::home::{default_loaded, HomeState};
use recipier::id::RecipeId;
use recipier::image::Image;
use recipier::layout::{RecordFile, IMG_FILE, SAVE_FILE};
use recipier::measure::{AmountUnit, Mass, MassUnit, TimeUnit, Volume, VolumeUnit};
use recipier::recipe::{Ingredient, IngredientAmount, Recipe, Span, Timestamp};
use recipier::scalar::Scalar;
use recipier::screen::AppScreen;
use recipier::search::{is_matchable, rank, score, TABLE_SLOT_BYTES};

fn num(x: f32) -> Scalar {
    Scalar::from_bits(x.to_bits())
}

fn val(s: Scalar) -> f32 {
    f32::from_bits(s.to_bits())
}

#[test]
fn id_text_is_hyphenated_lower_case() {
    let id = RecipeId::from_u128(0x936D_A01F_9ABD_4D9D_80C7_02AF_85C8_22A8);
    assert_eq!(id.to_string(), "936da01f-9abd-4d9d-80c7-02af85c822a8");
    assert_eq!(RecipeId::from_u128(0).to_string(), "00000000-0000-0000-0000-000000000000");
    assert_eq!(RecipeId::from_u128(u128::MAX).to_string(), "ffffffff-ffff-ffff-ffff-ffffffffffff");
    assert_eq!(id.to_string().len(), 36);
}

#[test]
fn id_parses_the_forms_it_is_written_in() {
    let value = 0x936D_A01F_9ABD_4D9D_80C7_02AF_85C8_22A8u128;
    assert_eq!(RecipeId::parse_str("936da01f-9abd-4d9d-80c7-02af85c822a8"), Some(RecipeId::from_u128(value)));
    assert_eq!(RecipeId::parse_str("936DA01F-9ABD-4D9D-80C7-02AF85C822A8"), Some(RecipeId::from_u128(value)));
    assert_eq!(RecipeId::parse_str("936da01f9abd4d9d80c702af85c822a8"), Some(RecipeId::from_u128(value)));
    assert_eq!(RecipeId::parse_str("urn:uuid:936da01f-9abd-4d9d-80c7-02af85c822a8"), Some(RecipeId::from_u128(value)));
}

#[test]
fn id_rejects_other_text() {
    assert_eq!(RecipeId::parse_str(""), None);
    assert_eq!(RecipeId::parse_str("save.json"), None);
    assert_eq!(RecipeId::parse_str("936da01f-9abd-4d9d-80c7-02af85c822a"), None);
    assert_eq!(RecipeId::parse_str("936da01f-9abd-4d9d-80c7-02af85c822ag"), None);
    assert_eq!(RecipeId::parse_str("936da01f-9abd4-d9d-80c7-02af85c822a8"), None);
}

#[test]
fn id_text_reads_back() {
    for value in [0u128, 1, 0xdead_beef, u128::MAX, 1 << 127, 0x0123_4567_89ab_cdef_0123_4567_89ab_cdef] {
        let id = RecipeId::from_u128(value);
        assert_eq!(RecipeId::parse_str(&id.to_string()), Some(id));
        assert_eq!(id.as_u128(), value);
    }
}

fn hex_digits_value(chars: &[char]) -> Option<u128> {
    if chars.len() != 32 {
        return None;
    }
    let mut value = 0u128;
    for c in chars {
        value = (value << 4) | u128::from(c.to_digit(16)?);
    }
    Some(value)
}

fn groups_value(chars: &[char]) -> Option<u128> {
    if chars.len() != 36 || [8, 13, 18, 23].iter().any(|&i| chars[i] != '-') {
        return None;
    }
    let digits: Vec<char> =
        chars.iter().enumerate().filter(|(i, _)| ![8, 13, 18, 23].contains(i)).map(|(_, c)| *c).collect();
    hex_digits_value(&digits)
}

fn expected_reading(text: &str) -> Option<u128> {
    let chars: Vec<char> = text.chars().collect();
    match chars.len() {
        32 => hex_digits_value(&chars),
        36 => groups_value(&chars),
        45 if chars[..9].iter().collect::<String>() == "urn:uuid:" => groups_value(&chars[9..]),
        _ => None,
    }
}

#[test]
fn id_reads_exactly_three_forms() {
    let base = "936da01f-9ABD-4d9d-80c7-02af85c822a8";
    let mut texts: Vec<String> = vec![
        base.to_owned(),
        base.replace('-', ""),
        format!("urn:uuid:{}", base),
        format!("URN:UUID:{}", base),
        format!("urn:uuid:{}", base.replace('-', "")),
        format!("{{{}}}", base),
        format!("urn:uuid:{}", &base[..32]),
        "urn:uuid:".to_owned(),
        String::new(),
        "-".repeat(36),
        "0".repeat(36),
        "0".repeat(32),
        "f".repeat(33),
        "é".repeat(32),
        "é".repeat(36),
        "é".repeat(16),
        "é".repeat(18),
        format!("{}é", &base[..35]),
        format!("{}é", &base[..34]),
        format!("é{}", &base[1..]),
    ];
    let chars: Vec<char> = base.chars().collect();
    for at in 0..chars.len() {
        for put in ['-', 'g', 'G', 'x', ' ', '0', 'F', 'é', '+', ':'] {
            let mut changed = chars.clone();
            changed[at] = put;
            texts.push(changed.iter().collect());
            let mut longer = chars.clone();
            longer.insert(at, put);
            texts.push(longer.iter().collect());
            texts.push(format!("urn:uuid:{}", changed.iter().collect::<String>()));
            let simple: Vec<char> = changed.iter().filter(|c| **c != '-').cloned().collect();
            texts.push(simple.iter().collect());
        }
        let mut shorter = chars.clone();
        shorter.remove(at);
        texts.push(shorter.iter().collect());
    }
    for at in 0..9 {
        let mut prefixed: Vec<char> = format!("urn:uuid:{}", base).chars().collect();
        prefixed[at] = 'é';
        texts.push(prefixed.iter().collect());
        prefixed[at] = 'U';
        texts.push(prefixed.iter().collect());
    }
    let mut read = 0;
    for text in texts.iter() {
        let expected = expected_reading(text);
        assert_eq!(RecipeId::parse_str(text).map(|id| id.as_u128()), expected, "{:?}", text);
        if expected.is_some() {
            read += 1;
        }
    }
    assert!(read > 100);
    assert!(read < texts.len() / 2);
}

#[test]
fn new_ids_are_random_version_four() {
    let a = RecipeId::new();
    let b = RecipeId::new();
    assert_ne!(a, b);
    for id in [a, b] {
        assert_eq!((id.as_u128() >> 76) & 0xf, 4);
        assert_eq!((id.as_u128() >> 62) & 0x3, 2);
    }
}

#[test]
fn ids_order_by_value() {
    assert!(RecipeId::from_u128(1) < RecipeId::from_u128(2));
    assert!(RecipeId::from_u128(1 << 100) > RecipeId::from_u128(u64::MAX as u128));
}

#[test]
fn record_files_are_named_after_the_id() {
    let id = RecipeId::from_u128(0xab);
    let record = RecordFile::record_of(id);
    assert_eq!(record.dir_name, "00000000-0000-0000-0000-0000000000ab");
    assert_eq!(record.file_name, "save.json");
    let image = RecordFile::image_of(id);
    assert_eq!(image.dir_name, "00000000-0000-0000-0000-0000000000ab");
    assert_eq!(image.file_name, "img.png");
    assert_eq!(SAVE_FILE, "save.json");
    assert_eq!(IMG_FILE, "img.png");
}

#[test]
fn mass_factors() {
    assert_eq!(val(MassUnit::Gram.conversion_factor()), 1.);
    assert_eq!(val(MassUnit::Kilogram.conversion_factor()), 1000.);
    assert_eq!(val(MassUnit::Milligram.conversion_factor()), 0.001);
    assert_eq!(val(MassUnit::Ounce.conversion_factor()), 28.34952);
    assert_eq!(val(MassUnit::Pound.conversion_factor()), 453.59237);
}

#[test]
fn volume_factors() {
    assert_eq!(val(VolumeUnit::Cup.conversion_factor()), 0.24);
    assert_eq!(val(VolumeUnit::Liter.conversion_factor()), 1.);
    assert_eq!(val(VolumeUnit::Milliliter.conversion_factor()), 0.001);
    assert_eq!(val(VolumeUnit::Teaspoon.conversion_factor()), 0.00492892);
    assert_eq!(val(VolumeUnit::Tablespoon.conversion_factor()), 0.014787);
    assert_eq!(val(VolumeUnit::Pint.conversion_factor()), 0.473176);
    assert_eq!(val(VolumeUnit::Quart.conversion_factor()), 0.946353);
    assert_eq!(val(VolumeUnit::Gallon.conversion_factor()), 3.78541);
    assert_eq!(val(VolumeUnit::FluidOz.conversion_factor()), 0.0295735);
}

#[test]
fn cups_to_liters_and_back() {
    let cup = val(VolumeUnit::Cup.conversion_factor());
    let liter = val(VolumeUnit::Liter.conversion_factor());
    let cups = Volume::new(VolumeUnit::Cup, num(2.0));
    let liters = Volume::new(VolumeUnit::Liter, num(val(cups.val) * cup / liter));
    assert!((val(liters.val) - 0.48).abs() < 1e-6);
    let back = Volume::new(VolumeUnit::Cup, num(val(liters.val) * liter / cup));
    assert!((val(back.val) - 2.0).abs() < 1e-4);
}

#[test]
fn unit_names() {
    assert_eq!(MassUnit::Gram.to_string(), "gram");
    assert_eq!(MassUnit::Kilogram.to_string(), "kilogram");
    assert_eq!(MassUnit::Milligram.to_string(), "milligram");
    assert_eq!(MassUnit::Ounce.to_string(), "ounce");
    assert_eq!(MassUnit::Pound.to_string(), "pound");
    assert_eq!(VolumeUnit::Cup.to_string(), "cup");
    assert_eq!(VolumeUnit::Liter.to_string(), "liter");
    assert_eq!(VolumeUnit::Milliliter.to_string(), "milliliter");
    assert_eq!(VolumeUnit::Teaspoon.to_string(), "teaspoon");
    assert_eq!(VolumeUnit::Tablespoon.to_string(), "tablespoon");
    assert_eq!(VolumeUnit::Pint.to_string(), "pint");
    assert_eq!(VolumeUnit::Quart.to_string(), "quart");
    assert_eq!(VolumeUnit::Gallon.to_string(), "gallon");
    assert_eq!(VolumeUnit::FluidOz.to_string(), "fluid ounce");
    assert_eq!(TimeUnit::Second.to_string(), "seconds");
    assert_eq!(TimeUnit::Minute.to_string(), "minutes");
    assert_eq!(TimeUnit::Hour.to_string(), "hours");
    assert_eq!(TimeUnit::Day.to_string(), "days");
}

#[test]
fn unit_labels_are_plural_unless_the_value_is_one() {
    assert_eq!(Volume::new(VolumeUnit::Cup, num(1.0)).unit_label(), "cup");
    assert_eq!(Volume::new(VolumeUnit::Cup, num(2.0)).unit_label(), "cups");
    assert_eq!(Volume::new(VolumeUnit::Cup, num(0.0)).unit_label(), "cups");
    assert_eq!(Volume::new(VolumeUnit::FluidOz, num(1.5)).unit_label(), "fluid ounces");
    assert_eq!(Mass::new(MassUnit::Gram, num(1.0)).unit_label(), "gram");
    assert_eq!(Mass::new(MassUnit::Gram, num(250.0)).unit_label(), "grams");
    assert_eq!(Mass::new(MassUnit::Pound, num(-1.0)).unit_label(), "pounds");
}

#[test]
fn scalar_is_one_only_for_one() {
    assert!(num(1.0).is_one());
    assert!(!num(1.0000001).is_one());
    assert!(!num(-1.0).is_one());
    assert!(!num(0.0).is_one());
    assert_eq!(num(2.0).to_bits(), 0x4000_0000);
}

#[test]
fn amount_units() {
    let cups = IngredientAmount::Volume(Volume::new(VolumeUnit::Cup, num(2.0)));
    let grams = IngredientAmount::Mass(Mass::new(MassUnit::Gram, num(5.0)));
    assert_eq!(AmountUnit::from(IngredientAmount::Count(3)), AmountUnit::Count);
    assert_eq!(AmountUnit::from(cups), AmountUnit::Volume(VolumeUnit::Cup));
    assert_eq!(AmountUnit::from(grams), AmountUnit::Mass(MassUnit::Gram));
    assert_eq!(AmountUnit::from(IngredientAmount::Absent), AmountUnit::Absent);
    assert_eq!(AmountUnit::Count.to_string(), "count");
    assert_eq!(AmountUnit::Volume(VolumeUnit::Pint).to_string(), "pint");
    assert_eq!(AmountUnit::Mass(MassUnit::Ounce).to_string(), "ounce");
    assert_eq!(AmountUnit::Absent.to_string(), "no measure");
    assert_eq!(IngredientAmount::Count(3).unit_string(), "count");
    assert_eq!(cups.unit_string(), "cup");
    assert_eq!(grams.unit_string(), "gram");
    assert_eq!(IngredientAmount::Absent.unit_string(), "no unit");
}

#[test]
fn amounts_are_the_same_when_written_the_same() {
    let two_cups = IngredientAmount::Volume(Volume::new(VolumeUnit::Cup, num(2.0)));
    assert!(two_cups.same(&IngredientAmount::Volume(Volume::new(VolumeUnit::Cup, num(2.0)))));
    assert!(!two_cups.same(&IngredientAmount::Volume(Volume::new(VolumeUnit::Cup, num(3.0)))));
    assert!(!two_cups.same(&IngredientAmount::Volume(Volume::new(VolumeUnit::Pint, num(2.0)))));
    assert!(!two_cups.same(&IngredientAmount::Mass(Mass::new(MassUnit::Gram, num(2.0)))));
    assert!(IngredientAmount::Count(2).same(&IngredientAmount::Count(2)));
    assert!(!IngredientAmount::Count(2).same(&IngredientAmount::Count(3)));
    assert!(IngredientAmount::Absent.same(&IngredientAmount::Absent));
    assert!(!IngredientAmount::Absent.same(&IngredientAmount::Count(0)));
}

#[test]
fn recipes_compare_field_by_field() {
    let id = RecipeId::from_u128(1);
    let at = Timestamp { secs: 10, nanos: 5 };
    let base = Recipe::top_ramen(id, at);
    assert!(base == Recipe::top_ramen(id, at));
    assert!(base != Recipe::top_ramen(RecipeId::from_u128(2), at));
    assert!(base != Recipe::top_ramen(id, Timestamp { secs: 10, nanos: 6 }));
    let mut other = Recipe::top_ramen(id, at);
    other.name.push('!');
    assert!(base != other);
    let mut other = Recipe::top_ramen(id, at);
    other.body.push('!');
    assert!(base != other);
    let mut other = Recipe::top_ramen(id, at);
    other.servings = None;
    assert!(base != other);
    let mut other = Recipe::top_ramen(id, at);
    other.time = Some(Span { secs: 600, nanos: 1 });
    assert!(base != other);
    let mut other = Recipe::top_ramen(id, at);
    other.ingredients.pop();
    assert!(base != other);
    let mut other = Recipe::top_ramen(id, at);
    other.ingredients[1].amount = IngredientAmount::Count(2);
    assert!(base != other);
    let mut other = Recipe::top_ramen(id, at);
    other.ingredients[0].name = "Packet".to_owned();
    assert!(base != other);
}

#[test]
fn ingredients_compare_by_name_and_amount() {
    let a = Ingredient { name: "Water".to_owned(), amount: IngredientAmount::Count(1) };
    let b = Ingredient { name: "Water".to_owned(), amount: IngredientAmount::Count(1) };
    let c = Ingredient { name: "Water".to_owned(), amount: IngredientAmount::Absent };
    let d = Ingredient { name: "Wine".to_owned(), amount: IngredientAmount::Count(1) };
    assert!(a == b);
    assert!(a != c);
    assert!(a != d);
}

#[test]
fn top_ramen_sample() {
    let r = Recipe::top_ramen(RecipeId::from_u128(77), Timestamp { secs: 1_636_560_420, nanos: 0 });
    assert_eq!(r.id, RecipeId::from_u128(77));
    assert_eq!(r.name, "Top Ramen");
    assert_eq!(r.created_on, Timestamp { secs: 1_636_560_420, nanos: 0 });
    assert_eq!(r.servings.map(val), Some(2.0));
    assert_eq!(r.ingredients.len(), 2);
    assert_eq!(r.ingredients[0].name, "Top Ramen Packet");
    assert!(r.ingredients[0].amount.same(&IngredientAmount::Count(1)));
    assert_eq!(r.ingredients[1].name, "Water");
    assert!(r.ingredients[1].amount.same(&IngredientAmount::Volume(Volume::new(VolumeUnit::Cup, num(2.0)))));
    assert!(r.body.starts_with("- Add water to small / medium pot and bring to boil\n- Remove noodle brick"));
    assert!(r.body.ends_with("- Leave for 5-10 minutes to cool and enjoy"));
    assert_eq!(r.body.lines().count(), 5);
    assert_eq!(r.time, Some(Span { secs: 600, nanos: 0 }));
}

#[test]
fn rank_prefers_the_name() {
    assert_eq!(rank(Some(5), Some(9)), 5);
    assert_eq!(rank(Some(-3), None), -3);
    assert_eq!(rank(None, Some(9)), 9);
    assert_eq!(rank(None, None), isize::MIN);
}

#[test]
fn score_is_the_matcher_s() {
    let id = RecipeId::from_u128(1);
    let mut r = Recipe::top_ramen(id, Timestamp { secs: 0, nanos: 0 });
    r.name = "SoccerCartoonController".to_owned();
    r.body = "nothing here".to_owned();
    assert_eq!(score("scc", &r), 172);
    assert_eq!(score("SCC", &r), score("scc", &r) + 3 * 8);
    assert_eq!(score("zzz", &r), isize::MIN);
    assert_eq!(score("", &r), isize::MIN);
    assert!(score("here", &r) > isize::MIN);
    assert_eq!(score(&"z".repeat(300), &r), isize::MIN);
    assert_eq!(score(&format!("{}s c c", " ".repeat(400)), &r), 172);
}

#[test]
fn terms_are_matchable_while_their_table_can_be_addressed() {
    assert_eq!(TABLE_SLOT_BYTES, 256);
    assert!(is_matchable(""));
    assert!(is_matchable("apple"));
    assert!(is_matchable(&"a".repeat(257)));
    assert!(is_matchable(&"é".repeat(2000)));
    let most = (((isize::MAX as u128) / 256) as f64).sqrt() as usize;
    if most < 3000 {
        assert!(is_matchable(&"a".repeat(2896)));
        assert!(!is_matchable(&"a".repeat(2897)));
    } else {
        assert_eq!(most, 189_812_531);
        assert!(!is_matchable(&"a".repeat(189_812_532)));
    }
}

#[test]
fn image_needs_a_buffer_of_the_right_size() {
    let image = Image::from_raw(vec![1, 2, 3, 4, 5, 6, 7, 8], 2, 1).unwrap();
    assert_eq!(image.width(), 2);
    assert_eq!(image.height(), 1);
    assert_eq!(image.raw_pixels(), &vec![1, 2, 3, 4, 5, 6, 7, 8]);
    assert!(Image::from_raw(vec![1, 2, 3, 4, 5, 6, 7], 2, 1).is_none());
    assert!(Image::from_raw(vec![0; 9], 2, 1).is_none());
    assert!(Image::from_raw(Vec::new(), 0, 5).is_some());
    assert!(Image::from_raw(Vec::new(), usize::MAX, 2).is_none());
    assert!(Image::from_raw(Vec::new(), usize::MAX / 2, 2).is_none());
    assert!(Image::from_raw(vec![0; 4], 1, 1).is_some());
}

#[test]
fn edited_time_in_seconds() {
    assert_eq!(EditedTime { secs: 0, minutes: 0, hours: 0 }.total_secs(), 0);
    assert_eq!(EditedTime { secs: 5, minutes: 10, hours: 0 }.total_secs(), 605);
    assert_eq!(EditedTime { secs: 1, minutes: 2, hours: 3 }.total_secs(), 10921);
    assert_eq!(EditedTime { secs: 255, minutes: 255, hours: 255 }.total_secs(), 933_555);
    assert_eq!(EditedTime { secs: 0, minutes: 90, hours: 0 }.to_span(), Span { secs: 5400, nanos: 0 });
    assert_eq!(EditedTime::default(), EditedTime { secs: 0, minutes: 0, hours: 0 });
}

#[test]
fn home_state_defaults() {
    assert_eq!(default_loaded(), 10);
    assert_eq!(HomeState::default().loaded, 10);
    assert_ne!(AppScreen::Home, AppScreen::SearchResults);
}

#[test]
fn counts_and_measures_are_written_out() {
    assert_eq!(recipier::text::decimal(0), "0");
    assert_eq!(recipier::text::decimal(7), "7");
    assert_eq!(recipier::text::decimal(10), "10");
    assert_eq!(recipier::text::decimal(1205), "1205");
    assert_eq!(recipier::text::decimal(usize::MAX), usize::MAX.to_string());
    assert_eq!(IngredientAmount::Count(3).display("ignored"), "x3");
    assert_eq!(IngredientAmount::Count(0).display(""), "x0");
    assert_eq!(IngredientAmount::Absent.display("2"), "");
    let cups = Volume::new(VolumeUnit::Cup, num(2.0));
    assert_eq!(cups.display(&format!("{}", val(cups.val))), "2 cups");
    let one = Volume::new(VolumeUnit::Liter, num(1.0));
    assert_eq!(one.display(&format!("{}", val(one.val))), "1 liter");
    let grams = Mass::new(MassUnit::Gram, num(0.5));
    assert_eq!(grams.display(&format!("{}", val(grams.val))), "0.5 grams");
    assert_eq!(Mass::new(MassUnit::Ounce, num(1.0)).display("1"), "1 ounce");
    assert_eq!(IngredientAmount::Volume(cups).display("2"), "2 cups");
    assert_eq!(IngredientAmount::Mass(grams).display("0.5"), "0.5 grams");
    let water = Ingredient { name: "Water".to_owned(), amount: IngredientAmount::Volume(cups) };
    assert_eq!(water.display("2"), "Water 2 cups");
    let packet = Ingredient { name: "Packet".to_owned(), amount: IngredientAmount::Count(1) };
    assert_eq!(packet.display(""), "Packet x1");
    let salt = Ingredient { name: "Salt".to_owned(), amount: IngredientAmount::Absent };
    assert_eq!(salt.display(""), "Salt ");
}

use record_convert::{convert_data, deserialize_from_string, serialize_to_string, Format, Real, Record};

const FORMATS: [Format; 4] = [Format::Json, Format::Yaml, Format::Csv, Format::Toml];

struct Dice(u64);

impl Dice {
    fn roll(&mut self) -> u64 {
        self.0 = self.0.wrapping_mul(6364136223846793005).wrapping_add(1442695040888963407);
        self.0 >> 33
    }

    fn below(&mut self, n: u64) -> u64 {
        self.roll() % n
    }
}

const LETTERS: [&str; 40] = [
    "a", "B", "z", "0", "7", " ", "  ", ",", ";", "\"", "'", "\\", "/", "#", ":", "-", "_", ".",
    "\n", "\r\n", "\t", "{", "}", "[", "]", "=", "&", "*", "!", "|", ">", "%", "@", "`", "é", "ß",
    "日本", "✓", "𝄞", "~",
];

fn name(dice: &mut Dice) -> String {
    let mut out = String::new();
    for _ in 0..dice.below(12) {
        out.push_str(LETTERS[dice.below(LETTERS.len() as u64) as usize]);
    }
    out
}

fn value(dice: &mut Dice) -> Real {
    let whole = dice.below(2_000_000) as f64 - 1_000_000.0;
    let scale = [1.0, 10.0, 100.0, 1000.0, 8.0, 1024.0][dice.below(6) as usize];
    Real::parse(&format!("{:?}", whole / scale)).unwrap()
}

fn records(seed: u64, count: usize) -> Vec<Record> {
    let mut dice = Dice(seed);
    (0..count)
        .map(|_| Record {
            id: dice.roll() as u32,
            name: name(&mut dice),
            value: value(&mut dice),
            active: dice.below(2) == 1,
        })
        .collect()
}

#[test]
fn many_records_round_trip_in_each_format() {
    for seed in 0..20 {
        let sample = records(seed, 50);
        for format in FORMATS {
            let text = serialize_to_string(&sample, format).unwrap();
            assert_eq!(deserialize_from_string(&text, format).unwrap(), sample, "{:?}", format);
        }
    }
}

#[test]
fn many_records_go_through_the_full_cycle() {
    for seed in 100..110 {
        let sample = records(seed, 30);
        let json = serialize_to_string(&sample, Format::Json).unwrap();
        let yaml = convert_data(&json, Format::Json, Format::Yaml).unwrap();
        let csv = convert_data(&yaml, Format::Yaml, Format::Csv).unwrap();
        let toml = convert_data(&csv, Format::Csv, Format::Toml).unwrap();
        let back = convert_data(&toml, Format::Toml, Format::Json).unwrap();
        assert_eq!(back, json);
        assert_eq!(deserialize_from_string(&back, Format::Json).unwrap(), sample);
    }
}

#[test]
fn values_keep_their_number_in_each_format() {
    let mut dice = Dice(7);
    for _ in 0..300 {
        let mantissa = dice.roll() as f64 * (dice.roll() as f64 + 1.0);
        let exponent = dice.below(560) as i32 - 290;
        let number = (mantissa * 10f64.powi(exponent)) * if dice.below(2) == 0 { 1.0 } else { -1.0 };
        let sample = vec![Record {
            id: 1,
            name: "n".to_string(),
            value: Real::parse(&format!("{:?}", number)).unwrap(),
            active: true,
        }];
        for format in FORMATS {
            let text = serialize_to_string(&sample, format).unwrap();
            let back = deserialize_from_string(&text, format).unwrap();
            let read: f64 = back[0].value.text().parse().unwrap();
            assert_eq!(read.to_bits(), number.to_bits(), "{:?} in {:?}", number, format);
            assert_eq!(back, sample, "{:?} in {:?}", number, format);
        }
    }
}

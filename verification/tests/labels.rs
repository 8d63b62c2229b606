use opentelemetry::labels::{
    key_before, new_encoder_id, Distinct, Encoder, EncoderId, KeyValue, LabelSet, Value,
};
use std::collections::hash_map::DefaultHasher;
use std::hash::Hasher;

fn kv(key: &str, value: i64) -> KeyValue {
    KeyValue::new(key.to_string(), Value::I64(value))
}

fn digest(labels: &Distinct) -> u64 {
    let mut hasher = DefaultHasher::new();
    labels.hash(&mut hasher);
    hasher.finish()
}

fn keys(labels: &Distinct) -> Vec<String> {
    (0..labels.len()).map(|i| labels.get(i).key.clone()).collect()
}

fn int_at(labels: &Distinct, at: usize) -> i64 {
    match labels.get(at).value {
        Value::I64(i) => i,
        _ => panic!("not an integer"),
    }
}

#[test]
fn labels_are_sorted_by_key() {
    let labels = Distinct::from(&[kv("b", 2), kv("c", 3), kv("a", 1)]);
    assert_eq!(keys(&labels), vec!["a", "b", "c"]);
    assert_eq!(int_at(&labels, 0), 1);
    assert_eq!(int_at(&labels, 1), 2);
    assert_eq!(int_at(&labels, 2), 3);
}

#[test]
fn of_labels_with_one_key_the_first_stays() {
    let labels = Distinct::from(&[kv("b", 1), kv("a", 2), kv("b", 3), kv("a", 4), kv("b", 5)]);
    assert_eq!(keys(&labels), vec!["a", "b"]);
    assert_eq!(int_at(&labels, 0), 2);
    assert_eq!(int_at(&labels, 1), 1);
}

#[test]
fn the_order_of_the_labels_is_immaterial() {
    let one = Distinct::from(&[kv("a", 1), kv("b", 2)]);
    let other = Distinct::from(&[kv("b", 2), kv("a", 1)]);
    assert_eq!(keys(&one), keys(&other));
    assert_eq!(int_at(&one, 0), int_at(&other, 0));
    assert_eq!(int_at(&one, 1), int_at(&other, 1));
    assert_eq!(digest(&one), digest(&other));
}

#[test]
fn different_labels_have_different_digests() {
    let one = Distinct::from(&[kv("a", 1), kv("b", 2)]);
    let other = Distinct::from(&[kv("a", 1), kv("b", 3)]);
    let third = Distinct::from(&[kv("a", 1)]);
    assert_ne!(digest(&one), digest(&other));
    assert_ne!(digest(&one), digest(&third));
}

#[test]
fn every_kind_of_value_changes_the_digest() {
    let make = |value: Value| Distinct::from(&[KeyValue::new("k".to_string(), value)]);
    let all = vec![
        digest(&make(Value::Bool(true))),
        digest(&make(Value::Bool(false))),
        digest(&make(Value::I64(1))),
        digest(&make(Value::U64(1))),
        digest(&make(Value::F64(1))),
        digest(&make(Value::String("1".to_string()))),
        digest(&make(Value::Bytes(vec![b'1']))),
    ];
    for i in 0..all.len() {
        for j in 0..all.len() {
            if i != j {
                assert_ne!(all[i], all[j], "{i} {j}");
            }
        }
    }
}

#[test]
fn keys_are_ordered_as_strings_are() {
    let words = ["", "a", "ab", "abc", "b", "B", "é", "z", "zz", "日本", "a\u{0}", "\u{10FFFF}"];
    for a in words {
        for b in words {
            assert_eq!(key_before(a, b), a < b, "{a:?} < {b:?}");
        }
    }
}

#[test]
fn an_empty_set_is_empty() {
    assert!(Distinct::from(&[]).is_empty());
    assert!(Distinct::default().is_empty());
    assert!(LabelSet::default().is_empty());
    assert!(!LabelSet::from(&[kv("a", 1)]).is_empty());
    assert_eq!(Distinct::from(&[kv("a", 1), kv("a", 2)]).len(), 1);
}

#[test]
fn a_label_set_hands_out_its_labels_in_order() {
    let set = LabelSet::from(&[kv("z", 26), kv("m", 13)]);
    let labels = set.iter();
    assert_eq!(labels.len(), 2);
    assert_eq!(labels[0].key, "m");
    assert_eq!(labels[1].key, "z");
    assert_eq!(set.equivalent().len(), 2);
    let again = LabelSet::with_equivalent(set.equivalent().clone());
    assert_eq!(again.iter()[1].key, "z");
}

#[test]
fn encoder_ids_count_up_from_one() {
    let mut issued = 0usize;
    let first = new_encoder_id(&mut issued);
    let second = new_encoder_id(&mut issued);
    assert_eq!(first, EncoderId(1));
    assert_eq!(second, EncoderId(2));
    assert_eq!(issued, 2);
    assert!(first.is_valid());
    assert!(!EncoderId(0).is_valid());
}

struct Counting {
    id: EncoderId,
    calls: std::cell::Cell<usize>,
    mark: &'static str,
}

impl Encoder for Counting {
    fn encode(&self, labels: &Distinct) -> String {
        self.calls.set(self.calls.get() + 1);
        let mut out = String::from(self.mark);
        for i in 0..labels.len() {
            out.push_str(&labels.get(i).key);
        }
        out
    }

    fn id(&self) -> EncoderId {
        self.id
    }
}

fn counting(id: usize, mark: &'static str) -> Counting {
    Counting { id: EncoderId(id), calls: std::cell::Cell::new(0), mark }
}

#[test]
fn an_encoding_is_made_once_and_then_kept() {
    let mut set = LabelSet::from(&[kv("b", 2), kv("a", 1)]);
    let encoder = counting(1, "x:");
    assert_eq!(set.encoded(Some(&encoder)), "x:ab");
    assert_eq!(set.encoded(Some(&encoder)), "x:ab");
    assert_eq!(encoder.calls.get(), 1);
}

#[test]
fn each_encoder_gets_its_own_encoding() {
    let mut set = LabelSet::from(&[kv("a", 1)]);
    let one = counting(1, "one:");
    let two = counting(2, "two:");
    assert_eq!(set.encoded(Some(&one)), "one:a");
    assert_eq!(set.encoded(Some(&two)), "two:a");
    assert_eq!(set.encoded(Some(&one)), "one:a");
    assert_eq!(set.encoded(Some(&two)), "two:a");
    assert_eq!(one.calls.get(), 1);
    assert_eq!(two.calls.get(), 1);
}

#[test]
fn a_full_cache_keeps_what_it_has() {
    let mut set = LabelSet::from(&[kv("a", 1)]);
    let encoders = [counting(1, "1:"), counting(2, "2:"), counting(3, "3:"), counting(4, "4:")];
    for encoder in &encoders {
        set.encoded(Some(encoder));
    }
    for encoder in &encoders {
        set.encoded(Some(encoder));
    }
    assert_eq!(encoders[0].calls.get(), 1);
    assert_eq!(encoders[1].calls.get(), 1);
    assert_eq!(encoders[2].calls.get(), 1);
    assert_eq!(encoders[3].calls.get(), 2);
    assert_eq!(set.encoded(Some(&encoders[3])), "4:a");
}

#[test]
fn an_encoder_without_identity_is_asked_each_time() {
    let mut set = LabelSet::from(&[kv("a", 1)]);
    let encoder = counting(0, "n:");
    assert_eq!(set.encoded(Some(&encoder)), "n:a");
    assert_eq!(set.encoded(Some(&encoder)), "n:a");
    assert_eq!(encoder.calls.get(), 2);
}

#[test]
fn no_labels_or_no_encoder_give_the_empty_text() {
    let encoder = counting(1, "x:");
    let mut empty = LabelSet::default();
    assert_eq!(empty.encoded(Some(&encoder)), "");
    assert_eq!(encoder.calls.get(), 0);
    let mut set = LabelSet::from(&[kv("a", 1)]);
    assert_eq!(set.encoded(None::<&Counting>), "");
}

#[test]
fn the_cache_stays_behind_when_a_set_is_copied() {
    let mut set = LabelSet::from(&[kv("a", 1)]);
    let encoder = counting(1, "x:");
    set.encoded(Some(&encoder));
    let mut copy = set.clone();
    assert_eq!(copy.encoded(Some(&encoder)), "x:a");
    assert_eq!(encoder.calls.get(), 2);
    assert_eq!(set.cached(EncoderId(1)), Some("x:a".to_string()));
    assert_eq!(set.cached(EncoderId(2)), None);
    set.remember(EncoderId(2), "kept".to_string());
    assert_eq!(set.cached(EncoderId(2)), Some("kept".to_string()));
}

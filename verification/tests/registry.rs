use ergothic::accumulate::{Accumulate, Figures};
use ergothic::measure::{Measure, MeasureRegistry, Measures};

/// Counts samples and adds up their values.
#[derive(Clone, Debug, PartialEq)]
struct Sum {
    samples: u64,
    total: i64,
}

impl Accumulate for Sum {
    fn new() -> Sum {
        Sum { samples: 0, total: 0 }
    }

    fn merge(&self, other: &Sum) -> Sum {
        Sum { samples: self.samples + other.samples, total: self.total + other.total }
    }

    fn num_of_samples(&self) -> u64 {
        self.samples
    }

    fn figures(&self) -> Figures {
        Figures {
            value: format!("{}", self.total),
            uncertainty: format!("{}", 0),
            relative_uncertainty: format!("{}", 0),
        }
    }
}

#[test]
fn new_registry_is_empty() {
    let registry = MeasureRegistry::<Sum>::new();
    assert_eq!(registry.measures().slice().len(), 0);
    assert_eq!(registry.find(&"energy".to_string()), None);
}

#[test]
fn register_appends_an_empty_accumulator() {
    let mut registry = MeasureRegistry::<Sum>::new();
    assert_eq!(registry.register("energy".to_string()), 0);
    assert_eq!(registry.register("magnetization".to_string()), 1);
    assert_eq!(registry.register("".to_string()), 2);
    let all = registry.measures().slice();
    assert_eq!(all.len(), 3);
    assert_eq!(all[0].name, "energy");
    assert_eq!(all[1].name, "magnetization");
    assert_eq!(all[2].name, "");
    for measure in all {
        assert_eq!(measure.acc, Sum { samples: 0, total: 0 });
    }
}

#[test]
fn find_gives_the_position_of_a_name() {
    let mut registry = MeasureRegistry::<Sum>::new();
    registry.register("a".to_string());
    registry.register("b".to_string());
    registry.register("c".to_string());
    assert_eq!(registry.find(&"a".to_string()), Some(0));
    assert_eq!(registry.find(&"b".to_string()), Some(1));
    assert_eq!(registry.find(&"c".to_string()), Some(2));
    assert_eq!(registry.find(&"d".to_string()), None);
    assert_eq!(registry.find(&"A".to_string()), None);
    assert_eq!(registry.find(&"".to_string()), None);
}

#[test]
fn find_changes_nothing() {
    let mut registry = MeasureRegistry::<Sum>::new();
    registry.register("a".to_string());
    *registry.accumulator(0) = Sum { samples: 3, total: 7 };
    assert_eq!(registry.find(&"a".to_string()), Some(0));
    assert_eq!(registry.find(&"b".to_string()), None);
    let all = registry.measures().slice();
    assert_eq!(all.len(), 1);
    assert_eq!(all[0].name, "a");
    assert_eq!(all[0].acc, Sum { samples: 3, total: 7 });
}

#[test]
fn accumulator_changes_one_accumulator_only() {
    let mut registry = MeasureRegistry::<Sum>::new();
    let a = registry.register("a".to_string());
    let b = registry.register("b".to_string());
    *registry.accumulator(b) = Sum { samples: 2, total: 10 };
    let merged = registry.accumulator(b).merge(&Sum { samples: 1, total: -4 });
    *registry.accumulator(b) = merged;
    assert_eq!(*registry.accumulator(a), Sum { samples: 0, total: 0 });
    assert_eq!(*registry.accumulator(b), Sum { samples: 3, total: 6 });
    let all = registry.measures().slice();
    assert_eq!(all[0].name, "a");
    assert_eq!(all[1].name, "b");
}

#[test]
fn lookup_or_create_registers_a_name_once() {
    let mut registry = MeasureRegistry::<Sum>::new();
    for name in ["a", "b", "a", "c", "b", "a"] {
        let name = name.to_string();
        let index = match registry.find(&name) {
            Some(index) => index,
            None => registry.register(name.clone()),
        };
        assert_eq!(registry.measures().slice()[index].name, name);
    }
    let all = registry.measures().slice();
    assert_eq!(all.len(), 3);
    assert_eq!(all[0].name, "a");
    assert_eq!(all[1].name, "b");
    assert_eq!(all[2].name, "c");
}

#[test]
fn measures_keep_the_order_they_are_given() {
    let measures = Measures::new(vec![
        Measure { name: "z".to_string(), acc: Sum { samples: 1, total: 1 } },
        Measure { name: "a".to_string(), acc: Sum { samples: 2, total: 2 } },
        Measure { name: "z".to_string(), acc: Sum { samples: 3, total: 3 } },
    ]);
    let all = measures.slice();
    assert_eq!(all.len(), 3);
    assert_eq!(all[0].name, "z");
    assert_eq!(all[1].name, "a");
    assert_eq!(all[2].name, "z");
    assert_eq!(all[2].acc.num_of_samples(), 3);
    assert_eq!(Measures::<Sum>::new(Vec::new()).slice().len(), 0);
}

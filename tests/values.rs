use shellvm::value::{escape_string, GeneratorObject, HashPart, HashWithIndex, IpSet, Ipv4Net, Ipv6Net, StringTriple, Value};

fn bigint(n: i64) -> Value {
    match Value::String(StringTriple::new(format!("{}", n))).to_bigint() {
        Some(b) => Value::BigInt(b),
        None => panic!("not an integer"),
    }
}

fn bigint_text(v: &Value) -> String {
    match v {
        Value::BigInt(_) => v.to_string().unwrap_or_default(),
        _ => panic!("expected a bigint"),
    }
}

fn string(s: &str) -> Value {
    Value::String(StringTriple::new(s.to_string()))
}

#[test]
fn truthiness() {
    assert!(!Value::Null.to_bool());
    assert!(!Value::Bool(false).to_bool());
    assert!(!Value::Int(0).to_bool());
    assert!(Value::Int(-1).to_bool());
    assert!(!bigint(0).to_bool());
    assert!(bigint(9).to_bool());
    assert!(!string("").to_bool());
    assert!(!string("0").to_bool());
    assert!(!string("0.0").to_bool());
    assert!(string("00").to_bool());
    assert!(Value::List(Vec::new()).to_bool());
}

#[test]
fn deep_clone_is_equal_and_independent() {
    let source = Value::List(vec![Value::Int(1), Value::List(vec![string("x")])]);
    let mut copy = source.value_clone();
    if let Value::List(l) = &mut copy {
        l.push(Value::Int(2));
        if let Value::List(inner) = &mut l[1] {
            inner.clear();
        }
    }
    match &source {
        Value::List(l) => {
            assert_eq!(l.len(), 2);
            match &l[1] {
                Value::List(inner) => assert_eq!(inner.len(), 1),
                _ => panic!("expected a list"),
            }
        },
        _ => panic!("expected a list"),
    }
    assert_eq!(source.to_bool(), source.value_clone().to_bool());
}

#[test]
fn deep_clone_copies_generator_state() {
    let g = GeneratorObject {
        local_vars_stack: vec![Value::Int(3)],
        index: 4,
        chunk: 0,
        call_stack_chunks: vec![(1, 2)],
        gen_args: vec![Value::Null],
    };
    let v = Value::Generator(g);
    match v.value_clone() {
        Value::Generator(c) => {
            assert_eq!(c.index, 4);
            assert!(matches!(c.local_vars_stack[0], Value::Int(3)));
            assert_eq!(c.call_stack_chunks, vec![(1, 2)]);
            assert_eq!(c.gen_args.len(), 1);
        },
        _ => panic!("expected a generator"),
    }
}

#[test]
fn type_names() {
    assert_eq!(Value::Null.type_string(), "null");
    assert_eq!(Value::Int(1).type_string(), "int");
    assert_eq!(bigint(1).type_string(), "bigint");
    assert_eq!(string("a").type_string(), "str");
    assert_eq!(Value::CommandUncaptured("ls".to_string()).type_string(), "command");
    assert_eq!(Value::ValueSet(Vec::new()).type_string(), "set");
    assert_eq!(Value::DateTimeOT(0).type_string(), "datetime");
    assert_eq!(Value::IpSet(IpSet::new(Vec::new(), Vec::new()).unwrap()).type_string(), "ips");
    assert_eq!(Value::MultiGenerator(0).type_string(), "multi-gen");
}

#[test]
fn variants_and_generators() {
    assert!(Value::Int(1).variants_equal(&Value::Int(2)));
    assert!(!Value::Int(1).variants_equal(&bigint(1)));
    assert!(Value::FileReader(0).is_generator());
    assert!(!Value::FileWriter(0).is_generator());
    assert!(Value::CommandGenerator(0).is_generator());
}

#[test]
fn integer_coercions() {
    assert_eq!(string("-17").to_int(), Some(-17));
    assert_eq!(string("+17").to_int(), Some(17));
    assert_eq!(string("2147483648").to_int(), None);
    assert_eq!(string("-2147483648").to_int(), Some(-2147483648));
    assert_eq!(string("1x").to_int(), None);
    assert_eq!(string("").to_int(), None);
    assert_eq!(Value::Null.to_int(), Some(0));
    assert_eq!(bigint(-5).to_int(), Some(-5));
    match string("-123456789012345678901234567890").to_bigint() {
        Some(b) => assert_eq!(bigint_text(&Value::BigInt(b)), "-123456789012345678901234567890"),
        None => panic!("expected a bigint"),
    }
    assert!(string("12a").to_bigint().is_none());
    assert!(Value::List(Vec::new()).to_bigint().is_none());
}

#[test]
fn int_text_round_trip() {
    for n in [0, 7, -7, 2147483647, -2147483648, 1000000] {
        let t = match Value::Int(n).to_string() {
            Some(t) => t,
            None => panic!("expected text"),
        };
        assert_eq!(t, format!("{}", n));
        assert_eq!(Value::String(StringTriple::new(t)).to_int(), Some(n));
    }
    assert_eq!(Value::Null.to_string(), Some(String::new()));
    assert_eq!(Value::List(Vec::new()).to_string(), None);
}

#[test]
fn escaping() {
    assert_eq!(escape_string("a\nb"), "a\\nb");
    assert_eq!(escape_string("tab\there"), "tab\\there");
    assert_eq!(escape_string("say \"hi\""), "say \\\"hi\\\"");
    assert_eq!(escape_string("a\\qb"), "a\\\\qb");
    assert_eq!(escape_string("a\\\\b"), "a\\\\\\\\b");
    assert_eq!(escape_string("end\\"), "end\\\\");
    assert_eq!(escape_string("a\nb\r\t\"\\"), "a\\nb\\r\\t\\\"\\\\");
    assert_eq!(escape_string("\r"), "\\r");
    let st = StringTriple::new("x\ny".to_string());
    assert_eq!(st.escaped_string, "x\\ny");
}

#[test]
fn sets_hold_one_kind() {
    let items = vec![Value::Int(1), string("x"), Value::Int(2)];
    assert!(matches!(
        shellvm::value::build_set(&items),
        Err(shellvm::vm::ErrorKind::Type)
    ));
    let items = vec![Value::Int(1), Value::Int(2), Value::Int(1)];
    match shellvm::value::build_set(&items) {
        Ok(Value::ValueSet(es)) => {
            assert_eq!(es.len(), 2);
            assert_eq!(es[0].0, "1");
            assert_eq!(es[1].0, "2");
        },
        _ => panic!("expected a set"),
    }
    assert!(shellvm::value::build_set(&vec![Value::List(Vec::new())]).is_err());
    assert!(matches!(shellvm::value::build_set(&Vec::new()), Ok(Value::ValueSet(_))));
}

#[test]
fn hash_iterators_hand_out_entries_in_order() {
    let entries = vec![("x".to_string(), Value::Int(1)), ("y".to_string(), Value::Int(2))];
    let mut keys = HashWithIndex::new(0, entries);
    match keys.shift(HashPart::Key) {
        Value::String(st) => assert_eq!(st.string, "x"),
        _ => panic!("expected a key"),
    }
    assert!(matches!(keys.shift(HashPart::Val), Value::Int(2)));
    assert!(matches!(keys.shift(HashPart::Key), Value::Null));
    assert_eq!(keys.i, 2);
    let mut each = HashWithIndex::new(1, vec![("x".to_string(), Value::Int(1)), ("y".to_string(), Value::Int(2))]);
    match each.shift(HashPart::Pair) {
        Value::List(l) => {
            assert_eq!(l.len(), 2);
            assert!(matches!(l[1], Value::Int(2)));
        },
        _ => panic!("expected a pair"),
    }
}

#[test]
fn ip_set_text_lists_v4_then_v6() {
    let v4 = vec![
        Ipv4Net { addr: 0x0A000000, prefix: 8 },
        Ipv4Net { addr: 0xC0A80001, prefix: 32 },
    ];
    let v6 = vec![Ipv6Net { addr: 1, prefix: 128 }, Ipv6Net { addr: 0x20010db8 << 96, prefix: 32 }];
    let set = match IpSet::new(v4, v6) {
        Some(s) => s,
        None => panic!("expected a valid set"),
    };
    let v = Value::IpSet(set);
    assert_eq!(v.to_string(), Some("10.0.0.0/8,192.168.0.1,::1,2001:db8::/32".to_string()));
    assert!(v.is_generator());
    match v.value_clone() {
        Value::IpSet(c) => assert_eq!(c.ipv4.len(), 2),
        _ => panic!("expected an IP set"),
    }
    assert_eq!(Value::IpSet(IpSet::new(Vec::new(), Vec::new()).unwrap()).to_string(), Some(String::new()));
}

#[test]
fn ip_set_rejects_unsorted_overlapping_or_invalid_networks() {
    let unsorted = vec![Ipv4Net { addr: 0xC0A80001, prefix: 32 }, Ipv4Net { addr: 0x0A000000, prefix: 8 }];
    assert!(IpSet::new(unsorted, Vec::new()).is_none());
    let overlapping = vec![Ipv4Net { addr: 0x0A000000, prefix: 8 }, Ipv4Net { addr: 0x0A000001, prefix: 32 }];
    assert!(IpSet::new(overlapping, Vec::new()).is_none());
    let host_bits = vec![Ipv4Net { addr: 0x0A000001, prefix: 8 }];
    assert!(IpSet::new(host_bits, Vec::new()).is_none());
    let v6 = vec![Ipv6Net { addr: 5, prefix: 128 }, Ipv6Net { addr: 5, prefix: 128 }];
    assert!(IpSet::new(Vec::new(), v6).is_none());
}

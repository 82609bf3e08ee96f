use voprf_node::cli::Action;
use voprf_node::cli::Cli;
use voprf_node::cli::Commands;
use voprf_node::curve::Point;
use voprf_node::curve::Scalar;
use voprf_node::keys::ensure_ready;
use voprf_node::keys::initialize;
use voprf_node::keys::open_store;
use voprf_node::keys::KeyError;
use voprf_node::keys::KeyPair;

const ORDER: &str = "fffffffffffffffffffffffffffffffebaaedce6af48a03bbfd25e8cd0364141";
const ORDER_MINUS_ONE: &str = "fffffffffffffffffffffffffffffffebaaedce6af48a03bbfd25e8cd0364140";

fn secret_of(v: u8) -> [u8; 32] {
    let mut bytes = [0u8; 32];
    bytes[31] = v;
    bytes
}

#[test]
fn generated_pair_has_matching_public_key() {
    let keys = KeyPair::generate();
    assert!(!keys.secret().is_zero());
    let y = Point::generator().mul(keys.secret());
    assert_eq!(keys.public().to_sec1(), y.to_sec1());
    assert!(!keys.public().is_identity());
}

#[test]
fn generated_pairs_differ() {
    let a = KeyPair::generate();
    let b = KeyPair::generate();
    assert_ne!(a.to_bytes(), b.to_bytes());
    assert_ne!(a.public().to_sec1(), b.public().to_sec1());
}

#[test]
fn secret_one_has_the_generator_as_public_key() {
    let keys = KeyPair::from_bytes(&secret_of(1)).unwrap();
    assert_eq!(keys.public().to_sec1(), Point::generator().to_sec1());
}

#[test]
fn secret_two_has_the_doubled_generator_as_public_key() {
    let keys = KeyPair::from_bytes(&secret_of(2)).unwrap();
    assert_eq!(
        hex::encode(keys.public().x_bytes()),
        "c6047f9441ed7d6d3045406e95c07cd85c778e4b8cef3ca7abac09b95c709ee5"
    );
    assert_eq!(
        hex::encode(keys.public().y_bytes()),
        "1ae168fea63dc339a3c58419466ceaeef7f632653266d0e1236431a950cfe52a"
    );
}

#[test]
fn zero_is_no_key() {
    assert!(matches!(KeyPair::from_bytes(&[0u8; 32]), Err(KeyError::InvalidKey)));
    let zero = Scalar::from_bytes(&[0u8; 32]).unwrap();
    assert!(matches!(KeyPair::from_scalar(zero), Err(KeyError::InvalidKey)));
}

#[test]
fn values_from_the_order_on_are_no_key() {
    assert!(matches!(KeyPair::from_bytes(&hex::decode(ORDER).unwrap()), Err(KeyError::InvalidKey)));
    assert!(matches!(KeyPair::from_bytes(&[0xffu8; 32]), Err(KeyError::InvalidKey)));
    assert!(KeyPair::from_bytes(&hex::decode(ORDER_MINUS_ONE).unwrap()).is_ok());
}

#[test]
fn other_lengths_are_no_key() {
    assert!(matches!(KeyPair::from_bytes(&[]), Err(KeyError::InvalidKey)));
    assert!(matches!(KeyPair::from_bytes(&[1u8; 31]), Err(KeyError::InvalidKey)));
    assert!(matches!(KeyPair::from_bytes(&[1u8; 33]), Err(KeyError::InvalidKey)));
}

#[test]
fn persisted_key_loads_as_the_same_pair() {
    let keys = KeyPair::generate();
    let written = keys.to_bytes();
    assert_eq!(written.len(), 32);
    let loaded = KeyPair::from_bytes(&written).unwrap();
    assert_eq!(loaded.to_bytes(), written);
    assert!(loaded.secret().same_value(keys.secret()));
    assert_eq!(loaded.public().to_sec1(), keys.public().to_sec1());
}

#[test]
fn store_loads_what_is_persisted() {
    let bytes = secret_of(2);
    let (keys, to_write) = open_store(Some(&bytes)).unwrap();
    assert!(to_write.is_none());
    assert_eq!(keys.to_bytes(), bytes);
}

#[test]
fn store_does_not_replace_a_malformed_key() {
    assert!(matches!(open_store(Some(&[0u8; 32])), Err(KeyError::InvalidKey)));
    assert!(matches!(open_store(Some(&[1u8; 5])), Err(KeyError::InvalidKey)));
}

#[test]
fn store_creates_a_key_where_none_is_persisted() {
    let (keys, to_write) = open_store(None).unwrap();
    let written = to_write.unwrap();
    assert_eq!(written, keys.to_bytes());
    let (again, nothing) = open_store(Some(&written)).unwrap();
    assert!(nothing.is_none());
    assert_eq!(again.public().to_sec1(), keys.public().to_sec1());
}

#[test]
fn serving_needs_a_persisted_key() {
    assert!(matches!(ensure_ready(None), Err(KeyError::MissingKey)));
    assert!(matches!(ensure_ready(Some(&[0u8; 32])), Err(KeyError::InvalidKey)));
    let keys = ensure_ready(Some(&secret_of(1))).unwrap();
    assert_eq!(keys.public().to_sec1(), Point::generator().to_sec1());
}

#[test]
fn initializing_keeps_a_key_unless_forced() {
    assert!(initialize(true, false).is_none());
    let (keys, bytes) = initialize(true, true).unwrap();
    assert_eq!(keys.to_bytes(), bytes);
    let (keys, bytes) = initialize(false, false).unwrap();
    assert_eq!(keys.to_bytes(), bytes);
    assert!(initialize(false, true).is_some());
}

#[test]
fn commands_and_their_actions() {
    let init = Cli { command: Commands::Initialize { force: false } };
    let forced = Cli { command: Commands::Initialize { force: true } };
    let serve = Cli { command: Commands::Serve };
    assert_eq!(init.action(true), Action::KeepKey);
    assert_eq!(init.action(false), Action::CreateKey);
    assert_eq!(forced.action(true), Action::CreateKey);
    assert_eq!(forced.action(false), Action::CreateKey);
    assert_eq!(serve.action(true), Action::Serve);
    assert_eq!(serve.action(false), Action::RefuseToServe);
}

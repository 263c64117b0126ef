use rumblebot::cache::CacheDecision;
use rumblebot::cache::LanguageSlots;
use rumblebot::cache::CompiledModule;
use rumblebot::cache::WasiVersion;
use rumblebot::cache::module_digest;
use rumblebot::cache::resolve_cached;
use rumblebot::proto::frame_line;
use rumblebot::proto::is_clean_line;
use rumblebot::proto::take_line;

#[test]
fn digest_is_the_blake3_hex_of_the_bytes() {
    // The digest of empty input, pinned: resolving would go wrong on any
    // other hashing or encoding.
    assert_eq!(
        module_digest(&[]),
        "af1349b9f5f9a1a6a0404dea36dcc9499bcb25c9adc112b7cc9a93cae41f3262"
    );
    assert_eq!(module_digest(b"bytecode").len(), 64);
    assert_ne!(module_digest(b"bytecode"), module_digest(b"bytecodf"));
}

#[test]
fn identical_bytecode_resolves_to_identical_keys() {
    let a = resolve_cached(b"\0asm fake module", None);
    let b = resolve_cached(b"\0asm fake module", None);
    assert_eq!(a.key, b.key);
    assert!(a.cached.is_none());
}

#[test]
fn a_cached_module_under_the_right_key_is_a_hit() {
    let first = resolve_cached(b"\0asm some module", None);
    let stored = CompiledModule { key: first.key.clone(), wasi_version: WasiVersion::Snapshot1 };
    let second = resolve_cached(b"\0asm some module", Some(stored.clone()));
    match second {
        CacheDecision { key, cached: Some(m) } => {
            assert_eq!(key, first.key);
            assert_eq!(m, stored);
        }
        other => panic!("expected a hit: {:?}", other),
    }
}

#[test]
fn a_module_under_a_foreign_key_is_recompiled() {
    let foreign = CompiledModule {
        key: "0000000000000000000000000000000000000000000000000000000000000000".to_string(),
        wasi_version: WasiVersion::Latest,
    };
    let decision = resolve_cached(b"\0asm other module", Some(foreign));
    assert!(decision.cached.is_none());
    assert_eq!(decision.key, module_digest(b"\0asm other module"));
}

#[test]
fn framing_round_trips_one_line() {
    let payload: Vec<u8> = b"{\"Ok\":null}".to_vec();
    assert!(is_clean_line(&payload));
    let framed = frame_line(&payload);
    assert_eq!(framed.last(), Some(&10u8));
    let (line, rest) = take_line(&framed).unwrap();
    assert_eq!(line, payload);
    assert!(rest.is_empty());
}

#[test]
fn take_line_needs_a_newline() {
    assert!(take_line(&b"partial".to_vec()).is_none());
    assert!(take_line(&Vec::new()).is_none());
}

#[test]
fn take_line_stops_at_the_first_newline() {
    let buf: Vec<u8> = b"first\nsecond\nrest".to_vec();
    let (line, rest) = take_line(&buf).unwrap();
    assert_eq!(line, b"first".to_vec());
    assert_eq!(rest, b"second\nrest".to_vec());
    let (line2, rest2) = take_line(&rest).unwrap();
    assert_eq!(line2, b"second".to_vec());
    assert_eq!(rest2, b"rest".to_vec());
}

#[test]
fn a_payload_with_a_newline_is_not_clean() {
    assert!(!is_clean_line(&b"two\nlines".to_vec()));
    assert!(is_clean_line(&Vec::new()));
}

#[test]
fn builtin_modules_compile_at_most_once() {
    let mut slots = LanguageSlots::new();
    assert!(slots.get(rumblebot::ident::Lang::Python).is_none());

    let first = CompiledModule {
        key: module_digest(b"python runner"),
        wasi_version: WasiVersion::Snapshot1,
    };
    slots.fill(rumblebot::ident::Lang::Python, first.clone());
    assert_eq!(slots.get(rumblebot::ident::Lang::Python), Some(&first));

    // A later offer is discarded: the first module sticks.
    let second = CompiledModule {
        key: module_digest(b"recompiled"),
        wasi_version: WasiVersion::Latest,
    };
    slots.fill(rumblebot::ident::Lang::Python, second);
    assert_eq!(slots.get(rumblebot::ident::Lang::Python), Some(&first));

    // The other language's slot is untouched.
    assert!(slots.get(rumblebot::ident::Lang::Javascript).is_none());
}

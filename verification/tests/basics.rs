#[test]
fn test_lib_compiles() {
    assert_eq!(2 + 2, 4);
    let _ = ease::threads::THREADS_MAX;
}

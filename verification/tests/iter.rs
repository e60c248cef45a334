use checksum::iter::IsUniform;

#[test]
fn empty_iterators_are_uniform() {
    assert!(Vec::<i32>::new().uniform());
}

#[test]
fn single_object_iterators_are_uniform() {
    assert!(vec![1].uniform());
}

#[test]
fn uniform_iterators_are_uniform() {
    assert!(vec![1, 1].uniform());
}

#[test]
fn non_uniform_iterators_are_not_uniform() {
    assert!(![1, 2].to_vec().uniform());
}

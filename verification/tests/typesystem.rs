use rust_learn::rust29_typesystem::{
    apply_to_any_lifetime, array_len_is_part_of_type, boxed_hrtb_closure, first_word, sum_array,
    LendingIterator, Plain, Shouty, Style, WordSplitter,
};

#[test]
fn lending_iterator_yields_borrowed_words() {
    let mut it = WordSplitter::new(" a  bb ccc ");
    assert_eq!(it.next(), Some("a"));
    assert_eq!(it.next(), Some("bb"));
    assert_eq!(it.next(), Some("ccc"));
    assert_eq!(it.next(), None);
}

#[test]
fn rpitit_implementations_return_different_types() {
    let plain = Plain("x".to_string());
    let shouty = Shouty("x".to_string());
    assert_eq!(plain.render().to_string(), "x");
    assert_eq!(shouty.render().to_string(), "x!!!");
}

#[test]
fn hrtb_accepts_any_lifetime() {
    assert_eq!(apply_to_any_lifetime(first_word, " one two "), "one");
    let f = boxed_hrtb_closure();
    assert_eq!(f(">>> keep"), "keep");
    assert_eq!(f("no-prefix"), "no-prefix");
}

#[test]
fn arrays_carry_their_length() {
    assert_eq!(sum_array([1, 2, 3]), 6);
    assert_eq!(sum_array::<0>([]), 0);
    array_len_is_part_of_type();
}

use aar::parser::{format_classname, format_name};

#[test]
fn classnames_lose_their_descriptor_frame() {
    assert_eq!(format_classname("LMyCode;"), "CLASS_MyCode");
}

#[test]
fn classname_slashes_become_double_underscores() {
    assert_eq!(
        format_classname("Ljava/io/PrintStream;"),
        "CLASS_java__io__PrintStream"
    );
}

#[test]
fn classname_underscores_are_doubled_before_slashes() {
    assert_eq!(format_classname("La__b/c;"), "CLASS_a____b__c");
}

#[test]
fn member_names_escape_angle_brackets() {
    assert_eq!(format_name("<init>"), "__init__");
}

#[test]
fn member_name_underscores_are_doubled() {
    assert_eq!(format_name("a__b"), "a____b");
}

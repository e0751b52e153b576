use connect_four::enums::{format_day_data, get_current_day, DayData, DayData2, OptionString};
use connect_four::lifetimes::{
    constant_str, constant_str_dummyargs, copy_string, copy_string_withlifetimes, find_a,
};
use connect_four::structs::{make_computer1, make_computer2, pair, SortedVector};

#[test]
pub fn test_day() {
    let day: DayData = get_current_day(4);
    assert_eq!(format_day_data(&day), String::from("thu -- class at 2!"),);
}

#[test]
fn day_names() {
    assert_eq!(get_current_day(1), DayData::Mon);
    assert_eq!(get_current_day(0), DayData::Fri);
    assert_eq!(format_day_data(&DayData::Mon), "mon");
    assert_eq!(format_day_data(&DayData::Tue), "tue");
    assert_eq!(format_day_data(&DayData::Wed), "wed");
    assert_eq!(format_day_data(&DayData::Fri), "fri");
    assert_eq!(format_day_data(&DayData::Thu(1030)), "thu -- class at 1030!");
}

#[test]
fn day2_debug_text() {
    assert_eq!(DayData2::Mon.format_day(), format!("{:?}", DayData2::Mon));
    assert_eq!(DayData2::Thu(2).format_day(), "Thu(2)");
    assert_eq!(DayData2::Fri.format_day(), "Fri");
    let nested = DayData2::OtherDayData(DayData::Thu(17));
    assert_eq!(nested.format_day(), "OtherDayData(Thu(17))");
    assert_eq!(nested.format_day(), format!("{:?}", nested));
}

#[test]
fn day2_duplicate_and_eq() {
    let d = DayData2::Thu(3);
    assert_eq!(d.duplicate(), (DayData2::Thu(3), DayData2::Thu(3)));
    assert!(d.check_all_eq(&DayData2::Thu(3), &DayData2::Thu(3)));
    assert!(!d.check_all_eq(&DayData2::Thu(3), &DayData2::Thu(4)));
    assert!(!d.check_all_eq(&DayData2::Wed, &DayData2::Thu(3)));
}

#[test]
fn option_string() {
    let mut s = OptionString::from_string(String::from("abc"));
    assert_eq!(s.to_string(), "abc");
    s.do_some_mutation();
    assert_eq!(s.to_string(), "");
    assert!(matches!(s, OptionString::NoString));
    s.do_some_mutation();
    assert!(matches!(s, OptionString::NoString));
}

#[test]
fn test_copy_string() {
    assert_eq!(copy_string("hello", 3), "hellohellohello");
}

#[test]
#[allow(unused_assignments, unused_variables)]
fn test_copy_string_bad() {
    let mut r: &str = "goodbye";
    {
        let s = String::from("hello");
        r = &s;
    }
}

#[test]
fn copy_string_edges() {
    assert_eq!(copy_string("ab", 0), "");
    assert_eq!(copy_string("", 4), "");
    assert_eq!(copy_string_withlifetimes("xy", 2), "xyxy");
}

#[test]
fn constant_strings() {
    assert_eq!(constant_str(), "constant");
    assert_eq!(constant_str_dummyargs("a", "b"), "constant");
}

#[test]
#[allow(unused_variables)]
fn nested_lifetimes_2() {
    let s = "hello";
    {
        let a = String::from("x");
        #[allow(unused_assignments)]
        let mut c: &str = "";
        {
            let b = String::from("y");
            println!("{}", find_a(&a, &b));
            println!("{}", find_a(&a, s));
            println!("{}", find_a(s, &b));
            c = find_a(s, &b);
        }
        println!("{}", find_a(&a, s));
    }
    println!("{}", find_a(s, s));
}

#[test]
fn find_a_cases() {
    assert_eq!(find_a("apple", "avocado"), "a");
    assert_eq!(find_a("pear", "apricot"), "a");
    assert_eq!(find_a("pear", "plum"), "");
    assert_eq!(find_a("", ""), "");
}

#[test]
pub fn test_computer() {
    let mut comp1 = make_computer1();
    let comp2 = make_computer1();
    println!("{:?}", comp1);
    assert_eq!(comp1, comp2);
    assert_eq!(comp1, comp1.clone());
    comp1.ram = 8;
    assert!(comp1 != comp2);
}

#[test]
fn computer_fields() {
    let c = make_computer1();
    assert_eq!((c.ram, c.harddrive, c.cpu_type.as_str()), (4, 1024, "Intel Core i7 7600"));
    let d = make_computer2(String::from("Ryzen"));
    assert_eq!((d.ram, d.harddrive, d.cpu_type.as_str()), (4, 1024, "Ryzen"));
    let p = pair();
    assert_eq!((p.0, p.1), (3, 3));
}

#[test]
fn sorted_vector_stays_sorted() {
    let mut sv = SortedVector::new(vec![3, -1, 2, 3]);
    assert_eq!(sv.values(), &vec![-1, 2, 3, 3]);
    sv.push(0);
    assert_eq!(sv.values(), &vec![-1, 0, 2, 3, 3]);
    sv.push(10);
    assert_eq!(sv.values(), &vec![-1, 0, 2, 3, 3, 10]);
}

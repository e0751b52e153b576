use vstd::prelude::*;

verus! {

/// What is known of a day of the week.
#[derive(Clone, Copy, Debug, PartialEq, Eq, Structural)]
pub enum DayData {
    Mon,
    Tue,
    Wed,
    /// Thursday, with the hour at which class starts.
    Thu(usize),
    Fri,
}

/// The characters of the decimal digit `d`.
pub open spec fn digit_char(d: nat) -> char {
    seq!['0', '1', '2', '3', '4', '5', '6', '7', '8', '9'][d as int]
}

/// The decimal digits of `n`, most significant first, without sign or padding.
pub open spec fn decimal_digits(n: nat) -> Seq<char>
    decreases n,
{
    if n < 10 {
        seq![digit_char(n)]
    } else {
        decimal_digits(n / 10).push(digit_char(n % 10))
    }
}

/// Relies on `ToString` for `usize` (through its `Display`): the decimal digits of `n`.
#[verifier::external_body]
fn decimal(n: usize) -> (r: String)
    ensures
        r@ == decimal_digits(n as nat),
{
    n.to_string()
}

/// The text that `format_day_data` gives for `d`.
pub open spec fn day_data_text(d: DayData) -> Seq<char> {
    match d {
        DayData::Mon => "mon"@,
        DayData::Tue => "tue"@,
        DayData::Wed => "wed"@,
        DayData::Thu(x) => "thu -- class at "@ + decimal_digits(x as nat) + "!"@,
        DayData::Fri => "fri"@,
    }
}

/// A short lower-case name for the day; Thursday gives its class hour.
pub fn format_day_data(d: &DayData) -> (r: String)
    ensures
        r@ == day_data_text(*d),
{
    match d {
        DayData::Mon => "mon".to_owned(),
        DayData::Tue => "tue".to_owned(),
        DayData::Wed => String::from_str("wed"),
        DayData::Thu(x) => {
            let mut s = "thu -- class at ".to_owned();
            let hour = decimal(*x);
            s.append(hour.as_str());
            s.append("!");
            s
        },
        DayData::Fri => "fri".to_owned(),
    }
}

/// The day numbered `day`: 4 is Thursday with class at 2, 1 is Monday, any other is Friday.
pub fn get_current_day(day: usize) -> (r: DayData)
    ensures
        r == (if day == 4 {
            DayData::Thu(2)
        } else if day == 1 {
            DayData::Mon
        } else {
            DayData::Fri
        }),
{
    if day == 4 {
        DayData::Thu(2)
    } else if day == 1 {
        DayData::Mon
    } else {
        DayData::Fri
    }
}

/// A day of the week, or a `DayData` carried inside.
#[derive(Clone, Copy, Debug, PartialEq, Eq, Structural)]
pub enum DayData2 {
    Mon,
    Tue,
    Wed,
    /// Thursday, with the hour at which class starts.
    Thu(usize),
    Fri,
    OtherDayData(DayData),
}

/// The debug text of a `DayData`: the variant's name, and its hour in parentheses.
pub open spec fn day_data_debug(d: DayData) -> Seq<char> {
    match d {
        DayData::Mon => "Mon"@,
        DayData::Tue => "Tue"@,
        DayData::Wed => "Wed"@,
        DayData::Thu(x) => "Thu("@ + decimal_digits(x as nat) + ")"@,
        DayData::Fri => "Fri"@,
    }
}

/// The debug text of a `DayData2`, written as its derived `Debug` writes it.
pub open spec fn day_data2_debug(d: DayData2) -> Seq<char> {
    match d {
        DayData2::Mon => "Mon"@,
        DayData2::Tue => "Tue"@,
        DayData2::Wed => "Wed"@,
        DayData2::Thu(x) => "Thu("@ + decimal_digits(x as nat) + ")"@,
        DayData2::Fri => "Fri"@,
        DayData2::OtherDayData(inner) => "OtherDayData("@ + day_data_debug(inner) + ")"@,
    }
}

fn debug_day_data(d: &DayData) -> (r: String)
    ensures
        r@ == day_data_debug(*d),
{
    match d {
        DayData::Mon => "Mon".to_owned(),
        DayData::Tue => "Tue".to_owned(),
        DayData::Wed => "Wed".to_owned(),
        DayData::Thu(x) => {
            let mut s = "Thu(".to_owned();
            let hour = decimal(*x);
            s.append(hour.as_str());
            s.append(")");
            s
        },
        DayData::Fri => "Fri".to_owned(),
    }
}

impl DayData2 {
    /// The day as its debug text, such as `Thu(2)` or `OtherDayData(Mon)`.
    pub fn format_day(&self) -> (r: String)
        ensures
            r@ == day_data2_debug(*self),
    {
        match self {
            DayData2::Mon => "Mon".to_owned(),
            DayData2::Tue => "Tue".to_owned(),
            DayData2::Wed => "Wed".to_owned(),
            DayData2::Thu(x) => {
                let mut s = "Thu(".to_owned();
                let hour = decimal(*x);
                s.append(hour.as_str());
                s.append(")");
                s
            },
            DayData2::Fri => "Fri".to_owned(),
            DayData2::OtherDayData(inner) => {
                let mut s = "OtherDayData(".to_owned();
                let text = debug_day_data(inner);
                s.append(text.as_str());
                s.append(")");
                s
            },
        }
    }

    /// Two copies of the day.
    pub fn duplicate(&self) -> (r: (DayData2, DayData2))
        ensures
            r == (*self, *self),
    {
        (self.clone(), self.clone())
    }

    /// Whether both other days equal this one.
    pub fn check_all_eq(&self, other1: &DayData2, other2: &DayData2) -> (r: bool)
        ensures
            r == (*self == *other1 && *self == *other2),
    {
        *self == *other1 && *self == *other2
    }
}

/// A string that may be absent.
pub enum OptionString {
    SomeString(String),
    NoString,
}

impl OptionString {
    /// The string held, or the empty string.
    pub fn to_string(&self) -> (r: String)
        ensures
            r@ == match self {
                OptionString::SomeString(s) => s@,
                OptionString::NoString => Seq::empty(),
            },
    {
        match self {
            OptionString::SomeString(s) => s.clone(),
            OptionString::NoString => String::new(),
        }
    }

    /// Holds `s`.
    pub fn from_string(s: String) -> (r: Self)
        ensures
            r == OptionString::SomeString(s),
    {
        OptionString::SomeString(s)
    }

    /// Drops the string held, if any.
    pub fn do_some_mutation(&mut self)
        ensures
            *final(self) is NoString,
    {
        if let OptionString::SomeString(_s) = self {
            *self = OptionString::NoString
        }
    }
}

} // verus!

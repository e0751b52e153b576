use vstd::prelude::*;

verus! {

/// `s` written `n` times in a row.
pub open spec fn repeated(s: Seq<char>, n: nat) -> Seq<char>
    decreases n,
{
    if n == 0 {
        Seq::empty()
    } else {
        repeated(s, (n - 1) as nat) + s
    }
}

/// `s` written `n` times in a row.
pub fn copy_string(s: &str, n: usize) -> (r: String)
    ensures
        r@ == repeated(s@, n as nat),
{
    let mut result = String::new();
    let mut i: usize = 0;
    while i < n
        invariant
            i <= n,
            result@ == repeated(s@, i as nat),
        decreases n - i,
    {
        result.append(s);
        i = i + 1;
    }
    result
}

/// `s` written `n` times in a row, with the borrow's lifetime named.
pub fn copy_string_withlifetimes<'a>(s: &'a str, n: usize) -> (r: String)
    ensures
        r@ == repeated(s@, n as nat),
{
    let mut result = String::new();
    let mut i: usize = 0;
    while i < n
        invariant
            i <= n,
            result@ == repeated(s@, i as nat),
        decreases n - i,
    {
        result.append(s);
        i = i + 1;
    }
    result
}

/// The text `constant`, which lives for the whole program.
pub fn constant_str() -> (r: &'static str)
    ensures
        r@ == "constant"@,
{
    "constant"
}

/// The text `constant`, whatever the arguments.
pub fn constant_str_dummyargs<'a>(s1: &'a str, s2: &'a str) -> (r: &'a str)
    ensures
        r@ == "constant"@,
{
    constant_str()
}

/// Whether `s` starts with the letter `a`.
pub open spec fn starts_with_a(s: Seq<char>) -> bool {
    s.len() > 0 && s[0] == 'a'
}

/// The leading `a` of `s1`, else that of `s2`, else the empty string.
pub fn find_a<'a>(s1: &'a str, s2: &'a str) -> (r: &'a str)
    ensures
        r@ == (if starts_with_a(s1@) {
            s1@.subrange(0, 1)
        } else if starts_with_a(s2@) {
            s2@.subrange(0, 1)
        } else {
            Seq::empty()
        }),
{
    if !s1.is_empty() && s1.get_char(0) == 'a' {
        s1.substring_char(0, 1)
    } else if !s2.is_empty() && s2.get_char(0) == 'a' {
        s2.substring_char(0, 1)
    } else {
        proof {
            reveal_strlit("");
        }
        ""
    }
}

} // verus!

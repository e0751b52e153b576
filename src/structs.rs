use vstd::prelude::*;
use vstd::relations::sorted_by;

verus! {

/// A computer's memory and disk sizes and its processor.
#[derive(Clone, Debug, PartialEq, Eq)]
pub struct Computer {
    pub ram: i32,
    pub harddrive: i32,
    pub cpu_type: String,
}

/// Two computers and a count.
#[derive(Debug)]
pub struct TwoComputers {
    pub comp1: Computer,
    pub comp2: Computer,
    pub len: usize,
}

/// A computer with 4 of memory, 1024 of disk and an Intel Core i7 7600.
pub fn make_computer1() -> (r: Computer)
    ensures
        r.ram == 4,
        r.harddrive == 1024,
        r.cpu_type@ == "Intel Core i7 7600"@,
{
    Computer { ram: 4, harddrive: 1024, cpu_type: "Intel Core i7 7600".to_owned() }
}

/// A computer with 4 of memory, 1024 of disk and the processor given.
pub fn make_computer2(cpu_type: String) -> (r: Computer)
    ensures
        r.ram == 4,
        r.harddrive == 1024,
        r.cpu_type == cpu_type,
{
    let ram: i32 = 4;
    let harddrive: i32 = 1024;
    Computer { ram, harddrive, cpu_type }
}

/// Two integers.
pub struct Pair(pub i32, pub i32);

/// The pair `(3, 3)`.
pub fn pair() -> (r: Pair)
    ensures
        r.0 == 3,
        r.1 == 3,
{
    Pair(3, 3)
}

/// Whether `s` is in ascending order.
pub open spec fn ascending(s: Seq<i32>) -> bool {
    sorted_by(s, |a: i32, b: i32| a <= b)
}

/// Relies on `slice::sort_unstable`: the same values, in ascending order.
#[verifier::external_body]
fn sort_values(v: &mut Vec<i32>)
    ensures
        ascending(final(v)@),
        final(v)@.to_multiset() == old(v)@.to_multiset(),
{
    v.sort_unstable();
}

/// Integers kept in ascending order.
pub struct SortedVector(Vec<i32>);

impl View for SortedVector {
    type V = Seq<i32>;

    closed spec fn view(&self) -> Seq<i32> {
        self.0@
    }
}

impl SortedVector {
    /// The values of `vec`, sorted.
    pub fn new(vec: Vec<i32>) -> (r: Self)
        ensures
            ascending(r@),
            r@.to_multiset() == vec@.to_multiset(),
    {
        let mut vec = vec;
        sort_values(&mut vec);
        SortedVector(vec)
    }

    /// Adds `val`, keeping the values sorted.
    pub fn push(&mut self, val: i32)
        ensures
            ascending(final(self)@),
            final(self)@.to_multiset() == old(self)@.to_multiset().insert(val),
    {
        self.0.push(val);
        proof {
            vstd::seq_lib::to_multiset_build(old(self).0@, val);
        }
        sort_values(&mut self.0);
    }

    /// The values, in ascending order.
    pub fn values(&self) -> (r: &Vec<i32>)
        ensures
            r@ == self@,
    {
        &self.0
    }
}

/// A struct with no fields.
pub struct Trivial;

/// A count and a text.
pub struct MutExample {
    field1: usize,
    field2: String,
}

/// The text that `mut_method` and `mutate_object` append.
pub open spec fn words() -> Seq<char> {
    " words words words"@
}

impl MutExample {
    /// The count.
    pub closed spec fn count(&self) -> usize {
        self.field1
    }

    /// The text.
    pub closed spec fn text(&self) -> Seq<char> {
        self.field2@
    }

    /// Adds one to the count and appends `" words words words"` to the text.
    pub fn mut_method(&mut self)
        requires
            old(self).count() < usize::MAX,
        ensures
            final(self).count() == old(self).count() + 1,
            final(self).text() == old(self).text() + words(),
    {
        self.field1 = self.field1 + 1;
        self.field2.append(" words words words");
    }

    fn mutate_field2(field2: &mut String)
        ensures
            final(field2)@ == old(field2)@ + words(),
    {
        field2.append(" words words words");
    }

    /// Appends `" words words words"` to the text and leaves the count as it is.
    pub fn mutate_object(&mut self)
        ensures
            final(self).count() == old(self).count(),
            final(self).text() == old(self).text() + words(),
    {
        Self::mutate_field2(&mut self.field2);
    }
}

} // verus!

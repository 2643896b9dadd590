//! Structs whose methods the web executor binds into JavaScript.
use std::collections::HashMap;

use vstd::prelude::*;

verus! {

/// A struct with a property and methods that are exposed to scripts.
pub struct TestStruct {
    pub field: i32,
    pub field2: HashMap<i32, i32>,
}

impl TestStruct {
    /// The field plus the other number.
    pub fn add(&self, other: i32) -> (r: i32)
        requires
            i32::MIN <= self.field + other <= i32::MAX,
        ensures
            r == self.field + other,
    {
        self.field + other
    }

    /// Adds the other number to the field.
    pub fn add2(&mut self, other: i32)
        requires
            i32::MIN <= old(self).field + other <= i32::MAX,
        ensures
            final(self).field == old(self).field + other,
            final(self).field2 == old(self).field2,
    {
        self.field = self.field + other;
    }

    /// The sum of two numbers.
    pub fn add3(a: i32, b: i32) -> (r: i32)
        requires
            i32::MIN <= a + b <= i32::MAX,
        ensures
            r == a + b,
    {
        a + b
    }

    /// Takes a JavaScript value and does nothing with it.
    pub fn v8_variadic<V>(_nums: V) {
    }
}

/// Hands the vector and the arrays made from it to functions that take each form of them.
pub fn array_test() {
    let mut test_vec: Vec<i32> = Vec::new();
    test_vec.push(1);
    test_vec.push(2);
    test_vec.push(3);
    vec(copy_vec(&test_vec));
    ref_vec(&test_vec);
    mut_vec(&mut test_vec);
    ref_slice(test_vec.as_slice());
    mut_slice(test_vec.as_mut_slice());
    let a: [i32; 3] = [test_vec[0], test_vec[1], test_vec[2]];
    size_slice(a);
    ref_size_slice(&a);
    let mut b: [i32; 3] = [test_vec[0], test_vec[1], test_vec[2]];
    mut_size_slice(&mut b);
}

fn copy_vec(v: &Vec<i32>) -> (r: Vec<i32>)
    ensures
        r@ == v@,
{
    let mut r: Vec<i32> = Vec::new();
    let mut i: usize = 0;
    while i < v.len()
        invariant
            i <= v.len(),
            r@ == v@.subrange(0, i as int),
        decreases v.len() - i,
    {
        r.push(v[i]);
        i = i + 1;
        proof {
            assert(r@ =~= v@.subrange(0, i as int));
        }
    }
    proof {
        assert(v@.subrange(0, v.len() as int) =~= v@);
    }
    r
}

pub fn vec(_vec: Vec<i32>) {
}

pub fn ref_vec(_vec: &Vec<i32>) {
}

pub fn mut_vec(_vec: &mut Vec<i32>)
    ensures
        final(_vec)@ == old(_vec)@,
{
}

pub fn ref_slice(_slice: &[i32]) {
}

pub fn mut_slice(_slice: &mut [i32])
    ensures
        final(_slice)@ == old(_slice)@,
{
}

pub fn size_slice(_array: [i32; 3]) {
}

pub fn ref_size_slice(_slice: &[i32; 3]) {
}

pub fn mut_size_slice(_slice: &mut [i32; 3])
    ensures
        final(_slice)@ == old(_slice)@,
{
}

/// A struct with a number and a string, whose methods are bound into JavaScript.
pub struct Test2 {
    pub field: i32,
    pub other_field: String,
}

impl Test2 {
    /// The number.
    pub fn cool_fn(&self) -> (r: i32)
        ensures
            r == self.field,
    {
        self.field
    }

    /// Adds the other number to the number.
    pub fn add(&mut self, other: i32)
        requires
            i32::MIN <= old(self).field + other <= i32::MAX,
        ensures
            final(self).field == old(self).field + other,
            final(self).other_field == old(self).other_field,
    {
        self.field = self.field + other;
    }

    /// The string followed by the other string.
    pub fn concat(&self, other: String) -> (r: String)
        ensures
            r@ == self.other_field@ + other@,
    {
        let mut s = self.other_field.clone();
        s.append(other.as_str());
        s
    }

    /// The string followed by the other string.
    pub fn takes_ref(&self, other: &String) -> (r: String)
        ensures
            r@ == self.other_field@ + other@,
    {
        let mut s = self.other_field.clone();
        s.append(other.as_str());
        s
    }
}

} // verus!

//! Arbitrary-precision decimal scaffolding for the binary stream format.

use vstd::prelude::*;

verus! {

/// Error raised when a [`Decimal`] cannot be converted to the asked-for
/// machine integer.
#[derive(Debug)]
pub struct TypesError {
    message: String,
}

impl TypesError {
    /// The description this error carries.
    pub closed spec fn spec_message(&self) -> Seq<char> {
        self.message@
    }

    /// The human-readable description of the failure.
    pub fn message(&self) -> (r: &str)
        ensures
            r@ == self.spec_message(),
    {
        self.message.as_str()
    }
}

/// A decimal number: a sign, a power-of-ten extension and a little list of
/// machine words.  Only single-word values can be read back as machine
/// integers.
pub struct Decimal {
    signed: bool,
    negative: bool,
    extension: i16,
    values: Vec<usize>,
}

impl Decimal {
    /// Whether the number carries a sign at all.
    pub closed spec fn spec_signed(&self) -> bool {
        self.signed
    }

    /// Whether the number is negative.
    pub closed spec fn spec_negative(&self) -> bool {
        self.negative
    }

    /// The power-of-ten extension.
    pub closed spec fn spec_extension(&self) -> int {
        self.extension as int
    }

    /// The magnitude words.
    pub closed spec fn spec_values(&self) -> Seq<usize> {
        self.values@
    }

    pub fn new(signed: bool, negative: bool, extension: i16, values: Vec<usize>) -> (r: Decimal)
        ensures
            r.spec_signed() == signed,
            r.spec_negative() == negative,
            r.spec_extension() == extension,
            r.spec_values() == values@,
    {
        Decimal { signed, negative, extension, values }
    }

    /// A `Decimal` holding a machine word: not signed, not negative, no
    /// extension.
    pub fn from_usize(value: usize) -> (r: Decimal)
        ensures
            !r.spec_signed(),
            !r.spec_negative(),
            r.spec_extension() == 0,
            r.spec_values() == seq![value],
    {
        let mut values: Vec<usize> = Vec::new();
        values.push(value);
        proof {
            assert(values@ =~= seq![value]);
        }
        Decimal { signed: false, negative: false, extension: 0, values }
    }

    /// A `Decimal` holding a signed machine word, no extension.
    pub fn from_isize(value: isize) -> (r: Decimal)
        requires
            value != isize::MIN,
        ensures
            r.spec_signed(),
            r.spec_negative() == (value < 0),
            r.spec_extension() == 0,
            r.spec_values().len() == 1,
            r.spec_values()[0] == (if value < 0 {
                -(value as int)
            } else {
                value as int
            }),
    {
        let mut values: Vec<usize> = Vec::new();
        if value < 0 {
            values.push((-value) as usize);
            Decimal { signed: true, negative: true, extension: 0, values }
        } else {
            values.push(value as usize);
            Decimal { signed: true, negative: false, extension: 0, values }
        }
    }

    /// Reads the number back as a `usize`: rejected when negative or wider
    /// than one word; an empty word list counts as zero.
    pub fn get_usize(&self) -> (r: Result<usize, TypesError>)
        ensures
            self.spec_negative() ==> r is Err,
            !self.spec_negative() && self.spec_values().len() == 0 ==> r == Ok::<
                usize,
                TypesError,
            >(0),
            !self.spec_negative() && self.spec_values().len() == 1 ==> r == Ok::<
                usize,
                TypesError,
            >(self.spec_values()[0]),
            !self.spec_negative() && self.spec_values().len() > 1 ==> r is Err,
    {
        if self.negative {
            return Err(
                TypesError { message: "negative value cannot be converted to usize".to_owned() },
            );
        }
        if self.values.len() == 0 {
            Ok(0)
        } else if self.values.len() == 1 {
            Ok(self.values[0])
        } else {
            Err(TypesError { message: "expected a value that fits one machine word".to_owned() })
        }
    }

    /// Reads the number back as an `isize`, applying the sign; rejected when
    /// wider than one word; an empty word list counts as zero.
    pub fn get_isize(&self) -> (r: Result<isize, TypesError>)
        requires
            self.spec_values().len() == 1 ==> self.spec_values()[0] <= isize::MAX,
        ensures
            self.spec_values().len() == 0 ==> r == Ok::<isize, TypesError>(0),
            self.spec_values().len() == 1 ==> (r matches Ok(v) && v as int == (
            if self.spec_negative() {
                -(self.spec_values()[0] as int)
            } else {
                self.spec_values()[0] as int
            })),
            self.spec_values().len() > 1 ==> r is Err,
    {
        if self.values.len() == 0 {
            Ok(0)
        } else if self.values.len() == 1 {
            if self.negative {
                Ok(-(self.values[0] as isize))
            } else {
                Ok(self.values[0] as isize)
            }
        } else {
            Err(TypesError { message: "expected a value that fits one machine word".to_owned() })
        }
    }
}

} // verus!

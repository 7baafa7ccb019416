//! The assertions that compare two values by their order.

use vstd::prelude::*;
use vstd::std_specs::cmp::{PartialOrdIs, PartialOrdSpec};
use vstd::string::StringExecFns;
use vstd::string::to_string_from_display_ensures;
use crate::assertions::{Assertion, AssertionResult, mismatch};
use crate::error::Error;

verus! {

impl Assertion {
    fn bound(sign: &str, value: &str) -> (r: String)
        ensures
            r@ == sign@ + value@,
    {
        let mut s = String::from_str(sign);
        s.append(value);
        s
    }

    /// Holds where `actual` is greater than `expected`.
    pub fn gt<T: PartialOrd + std::fmt::Display>(actual: T, expected: T) -> (r: Result<(), Error>)
        ensures
            T::obeys_partial_cmp_spec() ==> (r is Ok <==> actual.is_gt(&expected)),
            r is Err ==> exists|e: String, a: String|
                to_string_from_display_ensures::<T>(&expected, e) && to_string_from_display_ensures::<
                    T,
                >(&actual, a) && r->Err_0@ == #[trigger] mismatch(
                    "Expected value to be greater"@,
                    ">"@ + e@,
                    a@,
                ),
    {
        if actual > expected {
            AssertionResult::pass(String::from_str("Value is greater than expected")).into_result()
        } else {
            let e = expected.to_string();
            let a = actual.to_string();
            let limit = Self::bound(">", e.as_str());
            let r = AssertionResult::fail_with_values(
                String::from_str("Expected value to be greater"),
                limit.as_str(),
                a.as_str(),
            ).into_result();
            assert(r->Err_0@ == mismatch("Expected value to be greater"@, ">"@ + e@, a@));
            r
        }
    }

    /// Holds where `actual` is greater than `expected` or equal to it.
    pub fn ge<T: PartialOrd + std::fmt::Display>(actual: T, expected: T) -> (r: Result<(), Error>)
        ensures
            T::obeys_partial_cmp_spec() ==> (r is Ok <==> actual.is_ge(&expected)),
            r is Err ==> exists|e: String, a: String|
                to_string_from_display_ensures::<T>(&expected, e) && to_string_from_display_ensures::<
                    T,
                >(&actual, a) && r->Err_0@ == #[trigger] mismatch(
                    "Expected value to be greater than or equal"@,
                    ">="@ + e@,
                    a@,
                ),
    {
        if actual >= expected {
            AssertionResult::pass(
                String::from_str("Value is greater than or equal to expected"),
            ).into_result()
        } else {
            let e = expected.to_string();
            let a = actual.to_string();
            let limit = Self::bound(">=", e.as_str());
            let r = AssertionResult::fail_with_values(
                String::from_str("Expected value to be greater than or equal"),
                limit.as_str(),
                a.as_str(),
            ).into_result();
            assert(r->Err_0@ == mismatch(
                "Expected value to be greater than or equal"@,
                ">="@ + e@,
                a@,
            ));
            r
        }
    }

    /// Holds where `actual` is less than `expected`.
    pub fn lt<T: PartialOrd + std::fmt::Display>(actual: T, expected: T) -> (r: Result<(), Error>)
        ensures
            T::obeys_partial_cmp_spec() ==> (r is Ok <==> actual.is_lt(&expected)),
            r is Err ==> exists|e: String, a: String|
                to_string_from_display_ensures::<T>(&expected, e) && to_string_from_display_ensures::<
                    T,
                >(&actual, a) && r->Err_0@ == #[trigger] mismatch(
                    "Expected value to be less"@,
                    "<"@ + e@,
                    a@,
                ),
    {
        if actual < expected {
            AssertionResult::pass(String::from_str("Value is less than expected")).into_result()
        } else {
            let e = expected.to_string();
            let a = actual.to_string();
            let limit = Self::bound("<", e.as_str());
            let r = AssertionResult::fail_with_values(
                String::from_str("Expected value to be less"),
                limit.as_str(),
                a.as_str(),
            ).into_result();
            assert(r->Err_0@ == mismatch("Expected value to be less"@, "<"@ + e@, a@));
            r
        }
    }

    /// Holds where `actual` is less than `expected` or equal to it.
    pub fn le<T: PartialOrd + std::fmt::Display>(actual: T, expected: T) -> (r: Result<(), Error>)
        ensures
            T::obeys_partial_cmp_spec() ==> (r is Ok <==> actual.is_le(&expected)),
            r is Err ==> exists|e: String, a: String|
                to_string_from_display_ensures::<T>(&expected, e) && to_string_from_display_ensures::<
                    T,
                >(&actual, a) && r->Err_0@ == #[trigger] mismatch(
                    "Expected value to be less than or equal"@,
                    "<="@ + e@,
                    a@,
                ),
    {
        if actual <= expected {
            AssertionResult::pass(
                String::from_str("Value is less than or equal to expected"),
            ).into_result()
        } else {
            let e = expected.to_string();
            let a = actual.to_string();
            let limit = Self::bound("<=", e.as_str());
            let r = AssertionResult::fail_with_values(
                String::from_str("Expected value to be less than or equal"),
                limit.as_str(),
                a.as_str(),
            ).into_result();
            assert(r->Err_0@ == mismatch(
                "Expected value to be less than or equal"@,
                "<="@ + e@,
                a@,
            ));
            r
        }
    }
}

} // verus!

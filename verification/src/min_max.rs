use core::cmp::Ordering;

use vstd::prelude::*;

verus! {

/// An extension trait that provides the [`min_max`] method for sources of
/// machine integers.
///
/// [`min_max`]: IterMinMax::min_max
pub trait IterMinMax: View<V = Seq<i64>> + Sized {
    /// Whether the source is in a fit state to be drawn from.
    spec fn min_max_ready(&self) -> bool;

    /// Returns the minimum and maximum element of the source, or nothing
    /// when it is empty; a single element fills both places.
    fn min_max(self) -> (r: Option<(i64, i64)>)
        requires
            self.min_max_ready(),
        ensures
            r is None <==> self@.len() == 0,
            r matches Some(p) ==> {
                &&& self@.contains(p.0) && self@.contains(p.1)
                &&& forall|j: int| 0 <= j < self@.len() ==> p.0 <= #[trigger] self@[j] <= p.1
            },
    ;

    /// Returns the least and greatest element of the source with respect to
    /// the given comparison function; both come from the source.
    fn min_max_by<F: Fn(&i64, &i64) -> Ordering>(self, compare: F) -> (r: Option<(i64, i64)>)
        requires
            self.min_max_ready(),
            forall|a: &i64, b: &i64| #[trigger] call_requires(compare, (a, b)),
        ensures
            r is None <==> self@.len() == 0,
            r matches Some(p) ==> self@.contains(p.0) && self@.contains(p.1),
    ;

    /// Returns the element with the least key and the element with the
    /// greatest key, for the given key function; both come from the source.
    fn min_max_by_key<F: Fn(&i64) -> i64>(self, key: F) -> (r: Option<(i64, i64)>)
        requires
            self.min_max_ready(),
            forall|a: &i64| #[trigger] call_requires(key, (a,)),
        ensures
            r is None <==> self@.len() == 0,
            r matches Some(p) ==> self@.contains(p.0) && self@.contains(p.1),
    ;
}

impl IterMinMax for crate::into_iter::IntoIter<i64> {
    open spec fn min_max_ready(&self) -> bool {
        self.wf()
    }

    fn min_max(self) -> (r: Option<(i64, i64)>) {
        let v = self.as_slice();
        min_max(&v)
    }

    fn min_max_by<F: Fn(&i64, &i64) -> Ordering>(self, compare: F) -> (r: Option<(i64, i64)>) {
        let v = self.as_slice();
        min_max_by(&v, compare)
    }

    fn min_max_by_key<F: Fn(&i64) -> i64>(self, key: F) -> (r: Option<(i64, i64)>) {
        let v = self.as_slice();
        min_max_by_key(&v, key)
    }
}

/// Returns the minimum and maximum element of the values, walking them in
/// pairs so that each pair costs one comparison against the running minimum
/// and one against the running maximum.
///
/// - With no elements the result is `None`.
/// - With a single element that element fills both places.
/// - Otherwise the first place holds a value no element goes below and the
///   second a value no element goes above, and both occur among the values.
pub fn min_max(v: &Vec<i64>) -> (r: Option<(i64, i64)>)
    ensures
        r is None <==> v@.len() == 0,
        r matches Some(p) ==> {
            &&& v@.contains(p.0) && v@.contains(p.1)
            &&& forall|j: int| 0 <= j < v@.len() ==> p.0 <= #[trigger] v@[j] <= p.1
        },
{
    if v.len() == 0 {
        return None;
    }
    let a = v[0];
    if v.len() == 1 {
        return Some((a, a));
    }
    let b = v[1];
    let mut mn: i64;
    let mut mx: i64;
    if a < b {
        mn = a;
        mx = b;
    } else {
        mn = b;
        mx = a;
    }
    let mut i: usize = 2;
    while i < v.len()
        invariant
            2 <= i <= v@.len(),
            v@.contains(mn),
            v@.contains(mx),
            forall|j: int| 0 <= j < i ==> mn <= #[trigger] v@[j] <= mx,
        decreases v@.len() - i,
    {
        let a = v[i];
        if i + 1 == v.len() {
            if a < mn {
                mn = a;
            } else if a > mx {
                mx = a;
            }
            i = i + 1;
        } else {
            let b = v[i + 1];
            let lo: i64;
            let hi: i64;
            if a < b {
                lo = a;
                hi = b;
            } else {
                lo = b;
                hi = a;
            }
            if lo < mn {
                mn = lo;
            }
            if hi > mx {
                mx = hi;
            }
            i = i + 2;
        }
    }
    Some((mn, mx))
}

/// Returns the least and greatest element of the values with respect to the
/// given comparison function, walking them in pairs as [`min_max`] does.
/// Whatever the comparison answers, both results come from the values; when
/// it orders them totally, they are the least and greatest under that order.
pub fn min_max_by<F: Fn(&i64, &i64) -> Ordering>(v: &Vec<i64>, compare: F) -> (r: Option<
    (i64, i64),
>)
    requires
        forall|a: &i64, b: &i64| #[trigger] call_requires(compare, (a, b)),
    ensures
        r is None <==> v@.len() == 0,
        r matches Some(p) ==> v@.contains(p.0) && v@.contains(p.1),
{
    if v.len() == 0 {
        return None;
    }
    let a = v[0];
    if v.len() == 1 {
        return Some((a, a));
    }
    let b = v[1];
    let mut mn: i64;
    let mut mx: i64;
    match compare(&a, &b) {
        Ordering::Less => {
            mn = a;
            mx = b;
        }
        _ => {
            mn = b;
            mx = a;
        }
    }
    let mut i: usize = 2;
    while i < v.len()
        invariant
            forall|a: &i64, b: &i64| #[trigger] call_requires(compare, (a, b)),
            2 <= i <= v@.len(),
            v@.contains(mn),
            v@.contains(mx),
        decreases v@.len() - i,
    {
        let a = v[i];
        if i + 1 == v.len() {
            match compare(&a, &mn) {
                Ordering::Less => {
                    mn = a;
                }
                _ => {
                    match compare(&a, &mx) {
                        Ordering::Greater => {
                            mx = a;
                        }
                        _ => {}
                    }
                }
            }
            i = i + 1;
        } else {
            let b = v[i + 1];
            let lo: i64;
            let hi: i64;
            match compare(&a, &b) {
                Ordering::Less => {
                    lo = a;
                    hi = b;
                }
                _ => {
                    lo = b;
                    hi = a;
                }
            }
            match compare(&lo, &mn) {
                Ordering::Less => {
                    mn = lo;
                }
                _ => {}
            }
            match compare(&hi, &mx) {
                Ordering::Greater => {
                    mx = hi;
                }
                _ => {}
            }
            i = i + 2;
        }
    }
    Some((mn, mx))
}

/// Returns the element with the least key and the element with the greatest
/// key, for the given key function; both come from the values.
pub fn min_max_by_key<F: Fn(&i64) -> i64>(v: &Vec<i64>, key: F) -> (r: Option<(i64, i64)>)
    requires
        forall|a: &i64| #[trigger] call_requires(key, (a,)),
    ensures
        r is None <==> v@.len() == 0,
        r matches Some(p) ==> v@.contains(p.0) && v@.contains(p.1),
{
    if v.len() == 0 {
        return None;
    }
    let mut mn: i64 = v[0];
    let mut kmn: i64 = key(&mn);
    let mut mx: i64 = mn;
    let mut kmx: i64 = kmn;
    let mut i: usize = 1;
    while i < v.len()
        invariant
            forall|a: &i64| #[trigger] call_requires(key, (a,)),
            1 <= i <= v@.len(),
            v@.contains(mn),
            v@.contains(mx),
        decreases v@.len() - i,
    {
        let a = v[i];
        let ka = key(&a);
        if ka < kmn {
            mn = a;
            kmn = ka;
        }
        if ka > kmx {
            mx = a;
            kmx = ka;
        }
        i = i + 1;
    }
    Some((mn, mx))
}

} // verus!

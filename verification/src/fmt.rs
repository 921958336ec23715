use vstd::prelude::*;

use crate::into_iter::IntoIter;

verus! {

/// The character for one decimal digit.
pub open spec fn digit_char(d: int) -> char {
    if d == 0 {
        '0'
    } else if d == 1 {
        '1'
    } else if d == 2 {
        '2'
    } else if d == 3 {
        '3'
    } else if d == 4 {
        '4'
    } else if d == 5 {
        '5'
    } else if d == 6 {
        '6'
    } else if d == 7 {
        '7'
    } else if d == 8 {
        '8'
    } else {
        '9'
    }
}

/// The decimal rendering of a nonnegative number, most significant digit
/// first.
pub open spec fn dec_rep(n: nat) -> Seq<char>
    decreases n,
{
    if n < 10 {
        seq![digit_char(n as int)]
    } else {
        dec_rep(n / 10).push(digit_char((n % 10) as int))
    }
}

/// The decimal rendering of a number, a minus sign first if it is negative.
pub open spec fn int_rep(x: int) -> Seq<char> {
    if x < 0 {
        seq!['-'] + dec_rep((-x) as nat)
    } else {
        dec_rep(x as nat)
    }
}

/// The renderings of the values, joined by a comma and a space.
pub open spec fn list_rep(s: Seq<i32>) -> Seq<char>
    decreases s.len(),
{
    if s.len() == 0 {
        Seq::empty()
    } else if s.len() == 1 {
        int_rep(s[0] as int)
    } else {
        int_rep(s[0] as int) + seq![',', ' '] + list_rep(s.drop_first())
    }
}

/// What the cursor's debug text shows: its name and the values not yet
/// yielded, bracketed like a list.
pub open spec fn cursor_debug_rep(s: Seq<i32>) -> Seq<char> {
    seq!['I', 'n', 't', 'o', 'I', 't', 'e', 'r', '(', '['] + list_rep(s) + seq![']', ')']
}

/// Appending a value to a nonempty list appends a separator and its
/// rendering; to an empty list, just its rendering.
proof fn lemma_list_rep_push(s: Seq<i32>, x: i32)
    ensures
        s.len() == 0 ==> list_rep(s.push(x)) == int_rep(x as int),
        s.len() > 0 ==> list_rep(s.push(x)) == list_rep(s) + seq![',', ' '] + int_rep(x as int),
    decreases s.len(),
{
    let s2 = s.push(x);
    if s.len() == 0 {
        assert(s2.len() == 1);
        assert(s2[0] == x);
    } else {
        lemma_list_rep_push(s.drop_first(), x);
        assert(s2.drop_first() =~= s.drop_first().push(x));
        assert(s2[0] == s[0]);
        if s.len() == 1 {
            assert(s.drop_first().len() == 0);
            assert(list_rep(s2) =~= list_rep(s) + seq![',', ' '] + int_rep(x as int));
        } else {
            assert(list_rep(s2) =~= list_rep(s) + seq![',', ' '] + int_rep(x as int));
        }
    }
}

/// Appends one digit character.
fn push_digit(cs: &mut Vec<char>, d: u32)
    requires
        d < 10,
    ensures
        final(cs)@ == old(cs)@.push(digit_char(d as int)),
{
    let c: char = if d == 0 {
        '0'
    } else if d == 1 {
        '1'
    } else if d == 2 {
        '2'
    } else if d == 3 {
        '3'
    } else if d == 4 {
        '4'
    } else if d == 5 {
        '5'
    } else if d == 6 {
        '6'
    } else if d == 7 {
        '7'
    } else if d == 8 {
        '8'
    } else {
        '9'
    };
    cs.push(c);
}

/// Appends the decimal rendering of a nonnegative number.
fn push_u32_dec(cs: &mut Vec<char>, n: u32)
    ensures
        final(cs)@ == old(cs)@ + dec_rep(n as nat),
    decreases n,
{
    if n < 10 {
        push_digit(cs, n);
        proof {
            assert(cs@ =~= old(cs)@ + dec_rep(n as nat));
        }
    } else {
        push_u32_dec(cs, n / 10);
        push_digit(cs, n % 10);
        proof {
            assert(cs@ =~= old(cs)@ + dec_rep(n as nat));
        }
    }
}

/// Appends the decimal rendering of a value, sign included.
fn push_i32_dec(cs: &mut Vec<char>, x: i32)
    ensures
        final(cs)@ == old(cs)@ + int_rep(x as int),
{
    if x < 0 {
        cs.push('-');
        let m64: i64 = -(x as i64);
        let m: u32 = m64 as u32;
        proof {
            assert(m == -(x as int));
        }
        push_u32_dec(cs, m);
        proof {
            assert(cs@ =~= old(cs)@ + int_rep(x as int));
        }
    } else {
        push_u32_dec(cs, x as u32);
    }
}

impl IntoIter<i32> {
    /// The debug text: the cursor's name around exactly the values that
    /// have not been yielded yet.
    pub fn debug_string(&self) -> (r: String)
        requires
            self.wf(),
        ensures
            r@ == cursor_debug_rep(self@),
    {
        let elems = self.as_slice();
        let mut cs: Vec<char> = Vec::new();
        cs.push('I');
        cs.push('n');
        cs.push('t');
        cs.push('o');
        cs.push('I');
        cs.push('t');
        cs.push('e');
        cs.push('r');
        cs.push('(');
        cs.push('[');
        let ghost head = cs@;
        proof {
            assert(head =~= seq!['I', 'n', 't', 'o', 'I', 't', 'e', 'r', '(', '[']);
            assert(elems@.take(0) =~= Seq::<i32>::empty());
            assert(cs@ =~= head + list_rep(elems@.take(0)));
        }
        let mut i: usize = 0;
        while i < elems.len()
            invariant
                head == seq!['I', 'n', 't', 'o', 'I', 't', 'e', 'r', '(', '['],
                i <= elems@.len(),
                cs@ == head + list_rep(elems@.take(i as int)),
            decreases elems@.len() - i,
        {
            if i > 0 {
                cs.push(',');
                cs.push(' ');
            }
            let x = elems[i];
            push_i32_dec(&mut cs, x);
            proof {
                lemma_list_rep_push(elems@.take(i as int), x);
                assert(elems@.take(i + 1) =~= elems@.take(i as int).push(x));
                assert(cs@ =~= head + list_rep(elems@.take(i + 1)));
            }
            i = i + 1;
        }
        cs.push(']');
        cs.push(')');
        proof {
            assert(elems@.take(elems@.len() as int) =~= elems@);
            assert(cs@ =~= cursor_debug_rep(self@));
        }
        chars_to_string(&cs)
    }
}

/// Relies on `String`'s `FromIterator<char>` implementation: collecting
/// characters yields the string of exactly those characters, in order.
#[verifier::external_body]
fn chars_to_string(v: &Vec<char>) -> (r: String)
    ensures
        r@ == v@,
{
    v.iter().collect()
}

} // verus!

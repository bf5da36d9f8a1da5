//! Decisions of the command-line front end: quick login by number,
//! numbering imported machines and the messages it prints.

use vstd::prelude::*;
use crate::machine::Machine;
use crate::text::{dec, parsed_i32, parse_i32, push_dec, push_str, string_of};

verus! {

/// Index of the first machine whose number is `num`, or -1.
pub open spec fn num_index(ms: Seq<Machine>, num: i32) -> int
    decreases ms.len(),
{
    if ms.len() == 0 {
        -1
    } else if ms[0].num == num {
        0
    } else {
        let r = num_index(ms.drop_first(), num);
        if r < 0 { -1 } else { r + 1 }
    }
}

proof fn lemma_num_index(ms: Seq<Machine>, num: i32)
    ensures
        -1 <= num_index(ms, num) < ms.len(),
    decreases ms.len(),
{
    if ms.len() > 0 {
        lemma_num_index(ms.drop_first(), num);
    }
}

/// The machine a quick-login query picks by number: when the query reads
/// as a number, the first machine carrying it.
pub fn quick_login_target(query: &str, machines: &Vec<Machine>) -> (r: Option<usize>)
    ensures
        match parsed_i32(query@) {
            Some(n) => i32::MIN <= n <= i32::MAX && match r {
                Some(i) => i as int == num_index(machines@, n as i32),
                None => num_index(machines@, n as i32) == -1,
            },
            None => r is None,
        },
{
    let num = match parse_i32(query) {
        Some(n) => n,
        None => return None,
    };
    proof { lemma_num_index(machines@, num); }
    let mut i: usize = 0;
    assert(machines@.skip(0) =~= machines@);
    while i < machines.len()
        invariant
            i <= machines@.len(),
            parsed_i32(query@) == Some(num as int),
            num_index(machines@, num) == (if num_index(machines@.skip(i as int), num) < 0 { -1 }
                else { num_index(machines@.skip(i as int), num) + i }),
        decreases machines@.len() - i,
    {
        assert(machines@.skip(i as int)[0] == machines@[i as int]);
        if machines[i].num == num {
            return Some(i);
        }
        assert(machines@.skip(i as int).drop_first() =~= machines@.skip(i as int + 1));
        i = i + 1;
    }
    None
}

/// Numbers imported machines consecutively from `first`.
pub fn assign_numbers(machines: &mut Vec<Machine>, first: i32)
    requires
        first + old(machines)@.len() <= i32::MAX + 1,
    ensures
        final(machines)@.len() == old(machines)@.len(),
        forall|i: int| 0 <= i < old(machines)@.len() ==> #[trigger] final(machines)@[i]
            == (Machine { num: (first + i) as i32, ..old(machines)@[i] }),
{
    let mut i: usize = 0;
    let mut next: i32 = first;
    while i < machines.len()
        invariant
            i <= machines@.len(),
            machines@.len() == old(machines)@.len(),
            i < machines@.len() ==> next == first + i,
            first + old(machines)@.len() <= i32::MAX + 1,
            forall|k: int| 0 <= k < i ==> #[trigger] machines@[k] == (Machine { num: (first + k) as i32, ..old(machines)@[k] }),
            forall|k: int| i <= k < machines@.len() ==> #[trigger] machines@[k] == old(machines)@[k],
        decreases machines@.len() - i,
    {
        let mut m = machines[i].duplicate();
        m.num = next;
        machines.set(i, m);
        i = i + 1;
        if i < machines.len() {
            next = next + 1;
        }
    }
}

/// The report after an import: how many machines were added and how many
/// were skipped as already present.
pub open spec fn import_report(inserted: nat, total: nat) -> Seq<char> {
    "Imported "@ + dec(inserted) + " machines ("@ + dec((total - inserted) as nat) + " skipped)"@
}

/// The report after importing `total` machines of which `inserted` were new.
pub fn import_summary(inserted: usize, total: usize) -> (r: String)
    requires
        inserted <= total,
    ensures
        r@ == import_report(inserted as nat, total as nat),
{
    let mut v: Vec<char> = Vec::new();
    push_str(&mut v, "Imported ");
    push_dec(&mut v, inserted as u128);
    push_str(&mut v, " machines (");
    push_dec(&mut v, (total - inserted) as u128);
    push_str(&mut v, " skipped)");
    proof {
        reveal_strlit("Imported ");
        reveal_strlit(" machines (");
        reveal_strlit(" skipped)");
    }
    assert(v@ =~= import_report(inserted as nat, total as nat));
    string_of(&v)
}

/// The message when a quick-login query matches nothing.
pub fn no_match_message(query: &str) -> (r: String)
    ensures
        r@ == "⚠ No machines found matching '"@ + query@ + "'"@,
{
    let mut v: Vec<char> = Vec::new();
    push_str(&mut v, "⚠ No machines found matching '");
    push_str(&mut v, query);
    push_str(&mut v, "'");
    string_of(&v)
}

} // verus!

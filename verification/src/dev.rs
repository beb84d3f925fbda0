//! The developer-mode pod source: a scripted pod lifecycle (start, stop,
//! restart under a fresh uid) and synthetic log lines.

use vstd::prelude::*;
use vstd::string::StringExecFns;

use crate::merge::push_char;
use crate::types::{PodCommand, PodCommandView, PodKey, PodKeyView};

verus! {

/// The character of one decimal digit.
pub open spec fn digit_char(d: int) -> char {
    if d == 1 {
        '1'
    } else if d == 2 {
        '2'
    } else if d == 3 {
        '3'
    } else if d == 4 {
        '4'
    } else if d == 5 {
        '5'
    } else if d == 6 {
        '6'
    } else if d == 7 {
        '7'
    } else if d == 8 {
        '8'
    } else if d == 9 {
        '9'
    } else {
        '0'
    }
}

/// The decimal digits of `n`, most significant first.
pub open spec fn dec_digits(n: nat) -> Seq<char>
    decreases n,
{
    if n < 10 {
        seq![digit_char(n as int)]
    } else {
        dec_digits(n / 10).push(digit_char((n % 10) as int))
    }
}

/// The character of one decimal digit, as executable code.
fn digit_char_exec(d: u64) -> (c: char)
    ensures
        c == digit_char(d as int),
{
    match d {
        1 => '1',
        2 => '2',
        3 => '3',
        4 => '4',
        5 => '5',
        6 => '6',
        7 => '7',
        8 => '8',
        9 => '9',
        _ => '0',
    }
}

/// `n`, written in decimal.
pub fn format_u64(n: u64) -> (r: String)
    ensures
        r@ == dec_digits(n as nat),
    decreases n,
{
    if n < 10 {
        let mut out = String::new();
        push_char(&mut out, digit_char_exec(n));
        proof {
            assert(out@ =~= dec_digits(n as nat));
        }
        out
    } else {
        let mut out = format_u64(n / 10);
        push_char(&mut out, digit_char_exec(n % 10));
        proof {
            assert(out@ =~= dec_digits(n as nat));
        }
        out
    }
}

/// The message of the `counter`-th synthetic log line.
pub open spec fn dev_message(counter: nat) -> Seq<char> {
    "log line "@ + dec_digits(counter)
}

/// The `counter`-th synthetic log line.
pub fn dev_line_message(counter: u64) -> (r: String)
    ensures
        r@ == dev_message(counter as nat),
{
    let mut out = String::from_str("log line ");
    let digits = format_u64(counter);
    out.append(digits.as_str());
    out
}

/// The simulator's scripted lifecycle: a pod with two containers starts,
/// stops, and a namesake with a different uid starts — exercising the
/// replacement path end to end.
pub open spec fn dev_script(ns: Seq<char>) -> Seq<PodCommandView> {
    let pod1 = PodKeyView { namespace: ns, name: "dev-pod-1"@, uid: "dev-uid-1"@ };
    let pod2 = PodKeyView { namespace: ns, name: "dev-pod-1"@, uid: "dev-uid-2"@ };
    let cs = seq!["app"@, "sidecar"@];
    seq![
        PodCommandView::StartPod { pod: pod1, containers: cs },
        PodCommandView::StopPod { pod: pod1 },
        PodCommandView::StartPod { pod: pod2, containers: cs },
    ]
}

/// The commands of the simulator's script, in delivery order. The caller
/// paces them out and feeds them to the supervisor.
pub fn dev_pod_script(namespace: &String) -> (r: Vec<PodCommand>)
    ensures
        r.deep_view() == dev_script(namespace@),
{
    let mut r: Vec<PodCommand> = Vec::new();
    let mut cs1: Vec<String> = Vec::new();
    cs1.push(String::from_str("app"));
    cs1.push(String::from_str("sidecar"));
    let mut cs2: Vec<String> = Vec::new();
    cs2.push(String::from_str("app"));
    cs2.push(String::from_str("sidecar"));
    r.push(
        PodCommand::StartPod {
            pod: PodKey {
                namespace: namespace.clone(),
                name: String::from_str("dev-pod-1"),
                uid: String::from_str("dev-uid-1"),
            },
            containers: cs1,
        },
    );
    r.push(
        PodCommand::StopPod {
            pod: PodKey {
                namespace: namespace.clone(),
                name: String::from_str("dev-pod-1"),
                uid: String::from_str("dev-uid-1"),
            },
        },
    );
    r.push(
        PodCommand::StartPod {
            pod: PodKey {
                namespace: namespace.clone(),
                name: String::from_str("dev-pod-1"),
                uid: String::from_str("dev-uid-2"),
            },
            containers: cs2,
        },
    );
    proof {
        assert(r.deep_view() =~~= dev_script(namespace@));
    }
    r
}

} // verus!

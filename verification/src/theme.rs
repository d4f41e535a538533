use vstd::prelude::*;

verus! {

/// The `i`-th line of the boot sequence (`{}` stands for the model's name).
pub open spec fn boot_line(i: int) -> Seq<char> {
    if i == 0 {
        "TERMINATOR OS v1.0.0"@
    } else if i == 1 {
        "Copyright (c) 2026 Neural Systems Corp."@
    } else if i == 2 {
        ""@
    } else if i == 3 {
        "Initializing subsystems..."@
    } else if i == 4 {
        "  MEMORY BANKS .............. OK"@
    } else {
        "  NEURAL CORE: {}.. LOADING"@
    }
}

/// The number of lines of the boot sequence.
pub open spec fn boot_line_count() -> nat {
    6
}

/// The `i`-th line shown once the boot sequence is over.
pub open spec fn ready_line(i: int) -> Seq<char> {
    if i == 0 {
        "  NEURAL CORE: {}.. ONLINE"@
    } else if i == 1 {
        "  AUDIO SENSOR .............. ACTIVE"@
    } else if i == 2 {
        "  LANGUAGES: 140+ .......... READY"@
    } else if i == 3 {
        ""@
    } else {
        "System ready. Awaiting input."@
    }
}

/// The number of lines shown once the boot sequence is over.
pub open spec fn ready_line_count() -> nat {
    5
}

/// The lines of the boot sequence.
pub fn boot_lines() -> (r: Vec<&'static str>)
    ensures
        r@.len() == boot_line_count(),
        forall|i: int| 0 <= i < r@.len() ==> (#[trigger] r@[i])@ == boot_line(i),
{
    let mut r: Vec<&'static str> = Vec::new();
    r.push("TERMINATOR OS v1.0.0");
    r.push("Copyright (c) 2026 Neural Systems Corp.");
    r.push("");
    r.push("Initializing subsystems...");
    r.push("  MEMORY BANKS .............. OK");
    r.push("  NEURAL CORE: {}.. LOADING");
    r
}

/// The lines shown once the boot sequence is over.
pub fn ready_lines() -> (r: Vec<&'static str>)
    ensures
        r@.len() == ready_line_count(),
        forall|i: int| 0 <= i < r@.len() ==> (#[trigger] r@[i])@ == ready_line(i),
{
    let mut r: Vec<&'static str> = Vec::new();
    r.push("  NEURAL CORE: {}.. ONLINE");
    r.push("  AUDIO SENSOR .............. ACTIVE");
    r.push("  LANGUAGES: 140+ .......... READY");
    r.push("");
    r.push("System ready. Awaiting input.");
    r
}

} // verus!

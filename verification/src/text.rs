//! Overlay texts: decimal numbers, the Arkanoid level line and the tank battle score line.
use vstd::prelude::*;
use vstd::string::StringExecFns;

verus! {

/// The decimal digit character of `d` (below ten).
pub open spec fn digit_char(d: nat) -> char {
    (48 + d) as char
}

/// The decimal notation of `n`, without leading zeros.
pub open spec fn decimal(n: nat) -> Seq<char>
    decreases n,
{
    if n < 10 {
        seq![digit_char(n)]
    } else {
        decimal(n / 10).push(digit_char(n % 10))
    }
}

fn digit_str(d: u64) -> (s: &'static str)
    requires
        d < 10,
    ensures
        s@ == seq![digit_char(d as nat)],
{
    proof {
        reveal_strlit("0");
        reveal_strlit("1");
        reveal_strlit("2");
        reveal_strlit("3");
        reveal_strlit("4");
        reveal_strlit("5");
        reveal_strlit("6");
        reveal_strlit("7");
        reveal_strlit("8");
        reveal_strlit("9");
    }
    let s = match d {
        0 => "0",
        1 => "1",
        2 => "2",
        3 => "3",
        4 => "4",
        5 => "5",
        6 => "6",
        7 => "7",
        8 => "8",
        _ => "9",
    };
    assert(s@ =~= seq![digit_char(d as nat)]);
    s
}

/// The decimal notation of `n`.
pub fn decimal_string(n: u64) -> (s: String)
    ensures
        s@ == decimal(n as nat),
    decreases n,
{
    if n < 10 {
        String::from_str(digit_str(n))
    } else {
        let mut s = decimal_string(n / 10);
        s.append(digit_str(n % 10));
        s
    }
}

/// The level line of the Arkanoid overlay.
pub open spec fn level_label_spec(level: nat, immortal: bool) -> Seq<char> {
    if immortal {
        "LEVEL "@ + decimal(level) + "  ·  PRACTICE"@
    } else {
        "LEVEL "@ + decimal(level)
    }
}

/// The level line of the Arkanoid overlay, with a practice-mode note.
pub fn level_label(level: u32, immortal: bool) -> (s: String)
    ensures
        s@ == level_label_spec(level as nat, immortal),
{
    let mut s = String::from_str("LEVEL ");
    let n = decimal_string(level as u64);
    s.append(n.as_str());
    if immortal {
        s.append("  ·  PRACTICE");
    }
    s
}

/// The score line of the tank battle for the living tanks of each team.
pub open spec fn battle_overlay_spec(green: nat, steel: nat) -> Seq<char> {
    if green == 0 && steel == 0 {
        "Draw  —  R restart"@
    } else if green == 0 {
        "STEEL wins  —  R restart"@
    } else if steel == 0 {
        "GREEN wins  —  R restart"@
    } else {
        "GREEN "@ + decimal(green) + "   —   STEEL "@ + decimal(steel)
    }
}

/// The score line of the tank battle: the counts, or who won.
pub fn battle_overlay(green: u64, steel: u64) -> (s: String)
    ensures
        s@ == battle_overlay_spec(green as nat, steel as nat),
{
    if green == 0 && steel == 0 {
        String::from_str("Draw  —  R restart")
    } else if green == 0 {
        String::from_str("STEEL wins  —  R restart")
    } else if steel == 0 {
        String::from_str("GREEN wins  —  R restart")
    } else {
        let mut s = String::from_str("GREEN ");
        let g = decimal_string(green);
        s.append(g.as_str());
        s.append("   —   STEEL ");
        let t = decimal_string(steel);
        s.append(t.as_str());
        s
    }
}

/// The notes joined with `, `.
pub open spec fn join_notes(notes: Seq<Seq<char>>) -> Seq<char>
    decreases notes.len(),
{
    if notes.len() == 0 {
        Seq::empty()
    } else if notes.len() == 1 {
        notes[0]
    } else {
        join_notes(notes.drop_last()) + ", "@ + notes.last()
    }
}

/// Where the tank models came from: `glb`, followed by the notes about
/// missing or unreadable files when there are any.
pub open spec fn catalog_source_spec(notes: Seq<Seq<char>>) -> Seq<char> {
    if notes.len() == 0 {
        "glb"@
    } else {
        "glb · "@ + join_notes(notes)
    }
}

/// The note about a model file that could not be used: missing, or present
/// but unreadable (the procedural model stands in for it either way).
pub open spec fn asset_note_spec(path: Seq<char>, missing: bool) -> Seq<char> {
    if missing {
        path + ": missing"@
    } else {
        path + ": fallback"@
    }
}

/// The note about a model file that could not be used.
pub fn asset_note(path: &str, missing: bool) -> (s: String)
    ensures
        s@ == asset_note_spec(path@, missing),
{
    let mut s = String::from_str(path);
    if missing {
        s.append(": missing");
    } else {
        s.append(": fallback");
    }
    s
}

/// The source line of the model catalog.
pub fn catalog_source(notes: &Vec<String>) -> (s: String)
    ensures
        s@ == catalog_source_spec(notes@.map_values(|n: String| n@)),
{
    let ghost views = notes@.map_values(|n: String| n@);
    if notes.len() == 0 {
        return String::from_str("glb");
    }
    let mut s = String::from_str("glb · ");
    let ghost head = s@;
    let mut i: usize = 0;
    while i < notes.len()
        invariant
            views == notes@.map_values(|n: String| n@),
            head == "glb · "@,
            notes@.len() > 0,
            i <= notes@.len(),
            s@ == head + join_notes(views.take(i as int)),
        decreases notes@.len() - i,
    {
        proof {
            assert(views.take(i + 1).drop_last() =~= views.take(i as int));
            assert(views.take(i + 1).last() == notes@[i as int]@);
        }
        if i > 0 {
            s.append(", ");
        }
        s.append(notes[i].as_str());
        proof {
            if i == 0 {
                assert(views.take(1) =~= seq![notes@[0]@]);
            }
        }
        i = i + 1;
    }
    proof {
        assert(views.take(notes@.len() as int) =~= views);
    }
    s
}

} // verus!

//! What one cell of a pattern's grid can hold, and the tokens authors write
//! for it.

use crate::text::same_text;
use vstd::prelude::*;
use vstd::string::*;

verus! {

/// Height at which an arc of coins runs.
#[derive(Clone, Copy, Debug, PartialEq, Eq, Structural)]
pub enum Height {
    Low,
    High,
}

/// What occupies one lane at one row of a pattern.
#[derive(Clone, Copy, Debug, PartialEq, Eq, Structural)]
pub enum CellContent {
    Empty,
    CoinLow,
    CoinHigh,
    Ramp,
    Barrier,
    ArcStartLow,
    ArcEndLow,
    ArcStartHigh,
    ArcEndHigh,
    PowerupSpawnLow,
    PowerupSpawnHigh,
}

/// A token that stands for no cell.
#[derive(Clone, Debug, PartialEq, Eq)]
pub struct UnknownToken {
    pub token: String,
}

impl CellContent {
    /// The one long name of the cell.
    pub open spec fn long_name(self) -> Seq<char> {
        match self {
            CellContent::Empty => "Empty"@,
            CellContent::CoinLow => "CoinLow"@,
            CellContent::CoinHigh => "CoinHigh"@,
            CellContent::Ramp => "Ramp"@,
            CellContent::Barrier => "Barrier"@,
            CellContent::ArcStartLow => "ArcStartLow"@,
            CellContent::ArcEndLow => "ArcEndLow"@,
            CellContent::ArcStartHigh => "ArcStartHigh"@,
            CellContent::ArcEndHigh => "ArcEndHigh"@,
            CellContent::PowerupSpawnLow => "PowerupSpawnLow"@,
            CellContent::PowerupSpawnHigh => "PowerupSpawnHigh"@,
        }
    }

    /// The short token that diagnostics print for the cell.
    pub open spec fn alias(self) -> Seq<char> {
        match self {
            CellContent::Empty => "e"@,
            CellContent::CoinLow => "c"@,
            CellContent::CoinHigh => "C"@,
            CellContent::Ramp => "r"@,
            CellContent::Barrier => "b"@,
            CellContent::ArcStartLow => "a"@,
            CellContent::ArcEndLow => "x"@,
            CellContent::ArcStartHigh => "A"@,
            CellContent::ArcEndHigh => "X"@,
            CellContent::PowerupSpawnLow => "p"@,
            CellContent::PowerupSpawnHigh => "P"@,
        }
    }

    /// The height of the arc that the cell opens, if it opens one.
    pub open spec fn arc_start(self) -> Option<Height> {
        match self {
            CellContent::ArcStartLow => Some(Height::Low),
            CellContent::ArcStartHigh => Some(Height::High),
            _ => None,
        }
    }

    /// The height of the arc that the cell closes, if it closes one.
    pub open spec fn arc_end(self) -> Option<Height> {
        match self {
            CellContent::ArcEndLow => Some(Height::Low),
            CellContent::ArcEndHigh => Some(Height::High),
            _ => None,
        }
    }

    /// The one long name of the cell.
    pub fn name(self) -> (s: &'static str)
        ensures
            s@ == self.long_name(),
    {
        match self {
            CellContent::Empty => "Empty",
            CellContent::CoinLow => "CoinLow",
            CellContent::CoinHigh => "CoinHigh",
            CellContent::Ramp => "Ramp",
            CellContent::Barrier => "Barrier",
            CellContent::ArcStartLow => "ArcStartLow",
            CellContent::ArcEndLow => "ArcEndLow",
            CellContent::ArcStartHigh => "ArcStartHigh",
            CellContent::ArcEndHigh => "ArcEndHigh",
            CellContent::PowerupSpawnLow => "PowerupSpawnLow",
            CellContent::PowerupSpawnHigh => "PowerupSpawnHigh",
        }
    }

    /// The height of the arc that the cell opens, if it opens one.
    pub fn opened_arc(self) -> (h: Option<Height>)
        ensures
            h == self.arc_start(),
    {
        match self {
            CellContent::ArcStartLow => Some(Height::Low),
            CellContent::ArcStartHigh => Some(Height::High),
            _ => None,
        }
    }

    /// The height of the arc that the cell closes, if it closes one.
    pub fn closed_arc(self) -> (h: Option<Height>)
        ensures
            h == self.arc_end(),
    {
        match self {
            CellContent::ArcEndLow => Some(Height::Low),
            CellContent::ArcEndHigh => Some(Height::High),
            _ => None,
        }
    }
}

/// The cell that an authoring token stands for. Tokens are case-sensitive:
/// each cell answers to its long name and to its short alias, and the empty
/// cell also to a blank and to `n`. Every other token stands for nothing.
pub open spec fn cell_of_token(token: Seq<char>) -> Option<CellContent> {
    if token == ""@ || token == "e"@ || token == "n"@ || token == "Empty"@ {
        Some(CellContent::Empty)
    } else if token == "c"@ || token == "CoinLow"@ {
        Some(CellContent::CoinLow)
    } else if token == "C"@ || token == "CoinHigh"@ {
        Some(CellContent::CoinHigh)
    } else if token == "r"@ || token == "Ramp"@ {
        Some(CellContent::Ramp)
    } else if token == "b"@ || token == "Barrier"@ {
        Some(CellContent::Barrier)
    } else if token == "a"@ || token == "ArcStartLow"@ {
        Some(CellContent::ArcStartLow)
    } else if token == "x"@ || token == "ArcEndLow"@ {
        Some(CellContent::ArcEndLow)
    } else if token == "A"@ || token == "ArcStartHigh"@ {
        Some(CellContent::ArcStartHigh)
    } else if token == "X"@ || token == "ArcEndHigh"@ {
        Some(CellContent::ArcEndHigh)
    } else if token == "p"@ || token == "PowerupSpawnLow"@ {
        Some(CellContent::PowerupSpawnLow)
    } else if token == "P"@ || token == "PowerupSpawnHigh"@ {
        Some(CellContent::PowerupSpawnHigh)
    } else {
        None
    }
}

/// Reads one authoring token.
pub fn parse_cell(token: &str) -> (r: Result<CellContent, UnknownToken>)
    ensures
        match cell_of_token(token@) {
            Some(cell) => r == Ok::<CellContent, UnknownToken>(cell),
            None => r is Err && r->Err_0.token@ == token@,
        },
{
    if same_text(token, "") || same_text(token, "e") || same_text(token, "n") || same_text(
        token,
        "Empty",
    ) {
        Ok(CellContent::Empty)
    } else if same_text(token, "c") || same_text(token, "CoinLow") {
        Ok(CellContent::CoinLow)
    } else if same_text(token, "C") || same_text(token, "CoinHigh") {
        Ok(CellContent::CoinHigh)
    } else if same_text(token, "r") || same_text(token, "Ramp") {
        Ok(CellContent::Ramp)
    } else if same_text(token, "b") || same_text(token, "Barrier") {
        Ok(CellContent::Barrier)
    } else if same_text(token, "a") || same_text(token, "ArcStartLow") {
        Ok(CellContent::ArcStartLow)
    } else if same_text(token, "x") || same_text(token, "ArcEndLow") {
        Ok(CellContent::ArcEndLow)
    } else if same_text(token, "A") || same_text(token, "ArcStartHigh") {
        Ok(CellContent::ArcStartHigh)
    } else if same_text(token, "X") || same_text(token, "ArcEndHigh") {
        Ok(CellContent::ArcEndHigh)
    } else if same_text(token, "p") || same_text(token, "PowerupSpawnLow") {
        Ok(CellContent::PowerupSpawnLow)
    } else if same_text(token, "P") || same_text(token, "PowerupSpawnHigh") {
        Ok(CellContent::PowerupSpawnHigh)
    } else {
        Err(UnknownToken { token: token.to_owned() })
    }
}

/// The short token that diagnostics print for a cell.
pub fn to_alias(cell: CellContent) -> (token: &'static str)
    ensures
        token@ == cell.alias(),
{
    match cell {
        CellContent::Empty => "e",
        CellContent::CoinLow => "c",
        CellContent::CoinHigh => "C",
        CellContent::Ramp => "r",
        CellContent::Barrier => "b",
        CellContent::ArcStartLow => "a",
        CellContent::ArcEndLow => "x",
        CellContent::ArcStartHigh => "A",
        CellContent::ArcEndHigh => "X",
        CellContent::PowerupSpawnLow => "p",
        CellContent::PowerupSpawnHigh => "P",
    }
}

/// Length and first character of every token: enough to tell any two apart.
proof fn lemma_spellings()
    ensures
        ""@.len() == 0,
        "e"@.len() == 1 && "e"@[0] == 'e',
        "n"@.len() == 1 && "n"@[0] == 'n',
        "c"@.len() == 1 && "c"@[0] == 'c',
        "C"@.len() == 1 && "C"@[0] == 'C',
        "r"@.len() == 1 && "r"@[0] == 'r',
        "b"@.len() == 1 && "b"@[0] == 'b',
        "a"@.len() == 1 && "a"@[0] == 'a',
        "x"@.len() == 1 && "x"@[0] == 'x',
        "A"@.len() == 1 && "A"@[0] == 'A',
        "X"@.len() == 1 && "X"@[0] == 'X',
        "p"@.len() == 1 && "p"@[0] == 'p',
        "P"@.len() == 1 && "P"@[0] == 'P',
        "Empty"@.len() == 5 && "Empty"@[0] == 'E',
        "CoinLow"@.len() == 7 && "CoinLow"@[0] == 'C',
        "CoinHigh"@.len() == 8 && "CoinHigh"@[0] == 'C',
        "Ramp"@.len() == 4 && "Ramp"@[0] == 'R',
        "Barrier"@.len() == 7 && "Barrier"@[0] == 'B',
        "ArcStartLow"@.len() == 11 && "ArcStartLow"@[0] == 'A',
        "ArcEndLow"@.len() == 9 && "ArcEndLow"@[0] == 'A',
        "ArcStartHigh"@.len() == 12 && "ArcStartHigh"@[0] == 'A',
        "ArcEndHigh"@.len() == 10 && "ArcEndHigh"@[0] == 'A',
        "PowerupSpawnLow"@.len() == 15 && "PowerupSpawnLow"@[0] == 'P',
        "PowerupSpawnHigh"@.len() == 16 && "PowerupSpawnHigh"@[0] == 'P',
{
    reveal_strlit("");
    reveal_strlit("e");
    reveal_strlit("n");
    reveal_strlit("c");
    reveal_strlit("C");
    reveal_strlit("r");
    reveal_strlit("b");
    reveal_strlit("a");
    reveal_strlit("x");
    reveal_strlit("A");
    reveal_strlit("X");
    reveal_strlit("p");
    reveal_strlit("P");
    reveal_strlit("Empty");
    reveal_strlit("CoinLow");
    reveal_strlit("CoinHigh");
    reveal_strlit("Ramp");
    reveal_strlit("Barrier");
    reveal_strlit("ArcStartLow");
    reveal_strlit("ArcEndLow");
    reveal_strlit("ArcStartHigh");
    reveal_strlit("ArcEndHigh");
    reveal_strlit("PowerupSpawnLow");
    reveal_strlit("PowerupSpawnHigh");
}

/// Reading the alias of a cell gives the cell back.
pub proof fn lemma_alias_round_trip(cell: CellContent)
    ensures
        cell_of_token(cell.alias()) == Some(cell),
{
    lemma_spellings();
}

/// Reading the long name of a cell gives the cell back.
pub proof fn lemma_name_round_trip(cell: CellContent)
    ensures
        cell_of_token(cell.long_name()) == Some(cell),
{
    lemma_spellings();
}

} // verus!

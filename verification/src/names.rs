//! The capability name table: the fixed, ordered catalog of every
//! recognized capability code, one list per category. Parsing consults
//! it for membership; codes outside it are dropped.

use vstd::prelude::*;

verus! {

/// One catalog entry: the short code a record uses and a descriptive
/// long name for diagnostics.
pub struct CapName {
    pub code: String,
    pub long_name: String,
}

impl View for CapName {
    type V = (Seq<char>, Seq<char>);

    open spec fn view(&self) -> (Seq<char>, Seq<char>) {
        (self.code@, self.long_name@)
    }
}

/// A catalog list as its `(code, long name)` pairs.
pub open spec fn tbl_view(v: Seq<CapName>) -> Seq<(Seq<char>, Seq<char>)> {
    v.map_values(|c: CapName| c@)
}

/// Whether the catalog list `t` carries an entry for `code`.
pub open spec fn has_code(t: Seq<(Seq<char>, Seq<char>)>, code: Seq<char>) -> bool {
    exists|i: int| 0 <= i < t.len() && t[i].0 == code
}

/// The boolean capability catalog.
pub open spec fn bool_caps() -> Seq<(Seq<char>, Seq<char>)> {
    Seq::<(Seq<char>, Seq<char>)>::empty().push(("am"@, "has automatic margins"@)).push(
        ("bc"@, "can backspace"@),
    ).push(("bs"@, "backspaces with control-h"@)).push(
        ("bw"@, "backspace wraps to the previous line"@),
    ).push(("da"@, "display may be retained above the screen"@)).push(
        ("db"@, "display may be retained below the screen"@),
    ).push(("eo"@, "a space erases the character at the cursor"@)).push(
        ("hc"@, "hardcopy terminal"@),
    ).push(("hs"@, "has a status line"@)).push(("km"@, "has a meta key"@)).push(
        ("mi"@, "safe to move while in insert mode"@),
    ).push(("ms"@, "safe to move while in standout mode"@)).push(
        ("os"@, "terminal can overstrike"@),
    ).push(("ul"@, "underline character overstrikes"@)).push(
        ("xn"@, "newline is ignored after wrap"@),
    )
}

/// The numeric capability catalog.
pub open spec fn numeric_caps() -> Seq<(Seq<char>, Seq<char>)> {
    Seq::<(Seq<char>, Seq<char>)>::empty().push(("co"@, "number of columns in a line"@)).push(
        ("it"@, "tabs initially every n spaces"@),
    ).push(("li"@, "number of lines on the screen"@)).push(
        ("pb"@, "lowest baud rate where padding is needed"@),
    ).push(("sg"@, "number of blank characters left by standout"@)).push(
        ("ug"@, "number of blank characters left by underline"@),
    ).push(("vt"@, "virtual terminal number"@)).push(
        ("ws"@, "number of columns in the status line"@),
    )
}

/// The string capability catalog.
pub open spec fn string_caps() -> Seq<(Seq<char>, Seq<char>)> {
    Seq::<(Seq<char>, Seq<char>)>::empty().push(("al"@, "add new blank line"@)).push(
        ("bl"@, "audible bell"@),
    ).push(("cd"@, "clear to end of display"@)).push(("ce"@, "clear to end of line"@)).push(
        ("cl"@, "clear screen and home cursor"@),
    ).push(("cm"@, "cursor motion"@)).push(("cr"@, "carriage return"@)).push(
        ("cs"@, "change scrolling region"@),
    ).push(("dc"@, "delete character"@)).push(("dl"@, "delete line"@)).push(
        ("do"@, "cursor down one line"@),
    ).push(("ei"@, "end insert mode"@)).push(("ho"@, "home cursor"@)).push(
        ("ic"@, "insert character"@),
    ).push(("im"@, "enter insert mode"@)).push(("is"@, "terminal initialization string"@)).push(
        ("kd"@, "down arrow key"@),
    ).push(("kl"@, "left arrow key"@)).push(("kr"@, "right arrow key"@)).push(
        ("ku"@, "up arrow key"@),
    ).push(("le"@, "cursor left one column"@)).push(("md"@, "enter bold mode"@)).push(
        ("me"@, "end all attribute modes"@),
    ).push(("nd"@, "cursor right one column"@)).push(("se"@, "end standout mode"@)).push(
        ("sf"@, "scroll forward"@),
    ).push(("so"@, "enter standout mode"@)).push(("sr"@, "scroll reverse"@)).push(
        ("ta"@, "tab to next hardware tab"@),
    ).push(("te"@, "end cursor addressing mode"@)).push(
        ("ti"@, "begin cursor addressing mode"@),
    ).push(("ue"@, "end underline mode"@)).push(("up"@, "cursor up one line"@)).push(
        ("us"@, "start underline mode"@),
    ).push(("vb"@, "visible bell"@)).push(("ve"@, "make cursor visible"@)).push(
        ("vi"@, "make cursor invisible"@),
    ).push(("vs"@, "make cursor very visible"@))
}

fn push_cap(v: &mut Vec<CapName>, code: &str, long_name: &str)
    ensures
        tbl_view(final(v)@) == tbl_view(old(v)@).push((code@, long_name@)),
{
    v.push(CapName { code: String::from_str(code), long_name: String::from_str(long_name) });
    proof {
        assert(tbl_view(v@) =~= tbl_view(old(v)@).push((code@, long_name@)));
    }
}

/// The full name table, one ordered catalog per category. Built once
/// and read only; order within a category is kept as declared.
pub struct NameTable {
    pub booleans: Vec<CapName>,
    pub numerics: Vec<CapName>,
    pub strings: Vec<CapName>,
}

impl NameTable {
    /// The three lists hold exactly the fixed catalogs.
    pub open spec fn wf(&self) -> bool {
        &&& tbl_view(self.booleans@) == bool_caps()
        &&& tbl_view(self.numerics@) == numeric_caps()
        &&& tbl_view(self.strings@) == string_caps()
    }

    pub fn new() -> (r: NameTable)
        ensures
            r.wf(),
    {
        let mut booleans: Vec<CapName> = Vec::new();
        proof {
            assert(tbl_view(booleans@) =~= Seq::<(Seq<char>, Seq<char>)>::empty());
        }
        push_cap(&mut booleans, "am", "has automatic margins");
        push_cap(&mut booleans, "bc", "can backspace");
        push_cap(&mut booleans, "bs", "backspaces with control-h");
        push_cap(&mut booleans, "bw", "backspace wraps to the previous line");
        push_cap(&mut booleans, "da", "display may be retained above the screen");
        push_cap(&mut booleans, "db", "display may be retained below the screen");
        push_cap(&mut booleans, "eo", "a space erases the character at the cursor");
        push_cap(&mut booleans, "hc", "hardcopy terminal");
        push_cap(&mut booleans, "hs", "has a status line");
        push_cap(&mut booleans, "km", "has a meta key");
        push_cap(&mut booleans, "mi", "safe to move while in insert mode");
        push_cap(&mut booleans, "ms", "safe to move while in standout mode");
        push_cap(&mut booleans, "os", "terminal can overstrike");
        push_cap(&mut booleans, "ul", "underline character overstrikes");
        push_cap(&mut booleans, "xn", "newline is ignored after wrap");
        let mut numerics: Vec<CapName> = Vec::new();
        proof {
            assert(tbl_view(numerics@) =~= Seq::<(Seq<char>, Seq<char>)>::empty());
        }
        push_cap(&mut numerics, "co", "number of columns in a line");
        push_cap(&mut numerics, "it", "tabs initially every n spaces");
        push_cap(&mut numerics, "li", "number of lines on the screen");
        push_cap(&mut numerics, "pb", "lowest baud rate where padding is needed");
        push_cap(&mut numerics, "sg", "number of blank characters left by standout");
        push_cap(&mut numerics, "ug", "number of blank characters left by underline");
        push_cap(&mut numerics, "vt", "virtual terminal number");
        push_cap(&mut numerics, "ws", "number of columns in the status line");
        let mut strings: Vec<CapName> = Vec::new();
        proof {
            assert(tbl_view(strings@) =~= Seq::<(Seq<char>, Seq<char>)>::empty());
        }
        push_cap(&mut strings, "al", "add new blank line");
        push_cap(&mut strings, "bl", "audible bell");
        push_cap(&mut strings, "cd", "clear to end of display");
        push_cap(&mut strings, "ce", "clear to end of line");
        push_cap(&mut strings, "cl", "clear screen and home cursor");
        push_cap(&mut strings, "cm", "cursor motion");
        push_cap(&mut strings, "cr", "carriage return");
        push_cap(&mut strings, "cs", "change scrolling region");
        push_cap(&mut strings, "dc", "delete character");
        push_cap(&mut strings, "dl", "delete line");
        push_cap(&mut strings, "do", "cursor down one line");
        push_cap(&mut strings, "ei", "end insert mode");
        push_cap(&mut strings, "ho", "home cursor");
        push_cap(&mut strings, "ic", "insert character");
        push_cap(&mut strings, "im", "enter insert mode");
        push_cap(&mut strings, "is", "terminal initialization string");
        push_cap(&mut strings, "kd", "down arrow key");
        push_cap(&mut strings, "kl", "left arrow key");
        push_cap(&mut strings, "kr", "right arrow key");
        push_cap(&mut strings, "ku", "up arrow key");
        push_cap(&mut strings, "le", "cursor left one column");
        push_cap(&mut strings, "md", "enter bold mode");
        push_cap(&mut strings, "me", "end all attribute modes");
        push_cap(&mut strings, "nd", "cursor right one column");
        push_cap(&mut strings, "se", "end standout mode");
        push_cap(&mut strings, "sf", "scroll forward");
        push_cap(&mut strings, "so", "enter standout mode");
        push_cap(&mut strings, "sr", "scroll reverse");
        push_cap(&mut strings, "ta", "tab to next hardware tab");
        push_cap(&mut strings, "te", "end cursor addressing mode");
        push_cap(&mut strings, "ti", "begin cursor addressing mode");
        push_cap(&mut strings, "ue", "end underline mode");
        push_cap(&mut strings, "up", "cursor up one line");
        push_cap(&mut strings, "us", "start underline mode");
        push_cap(&mut strings, "vb", "visible bell");
        push_cap(&mut strings, "ve", "make cursor visible");
        push_cap(&mut strings, "vi", "make cursor invisible");
        push_cap(&mut strings, "vs", "make cursor very visible");
        NameTable { booleans, numerics, strings }
    }

    fn lookup(v: &Vec<CapName>, code: &str) -> (r: bool)
        ensures
            r == has_code(tbl_view(v@), code@),
    {
        let mut i: usize = 0;
        while i < v.len()
            invariant
                i <= v.len(),
                forall|j: int| 0 <= j < i ==> tbl_view(v@)[j].0 != code@,
            decreases v.len() - i,
        {
            proof {
                assert(tbl_view(v@)[i as int] == v@[i as int]@);
            }
            if crate::text::str_eq(v[i].code.as_str(), code) {
                assert(tbl_view(v@)[i as int].0 == code@);
                return true;
            }
            i += 1;
        }
        false
    }

    /// Whether `code` names a recognized boolean capability.
    pub fn is_bool(&self, code: &str) -> (r: bool)
        requires
            self.wf(),
        ensures
            r == has_code(bool_caps(), code@),
    {
        Self::lookup(&self.booleans, code)
    }

    /// Whether `code` names a recognized numeric capability.
    pub fn is_numeric(&self, code: &str) -> (r: bool)
        requires
            self.wf(),
        ensures
            r == has_code(numeric_caps(), code@),
    {
        Self::lookup(&self.numerics, code)
    }

    /// Whether `code` names a recognized string capability.
    pub fn is_string(&self, code: &str) -> (r: bool)
        requires
            self.wf(),
        ensures
            r == has_code(string_caps(), code@),
    {
        Self::lookup(&self.strings, code)
    }
}

} // verus!

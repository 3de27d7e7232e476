//! What the web client learns about the service when it starts.

use vstd::prelude::*;
use crate::device::{Device, epson_v600, epson_v600_model};

verus! {

/// The width and height of a sheet of paper, in whole millimetres.
#[derive(Debug, PartialEq, Eq)]
pub struct Dimensions {
    pub x: u32,
    pub y: u32,
}

/// A named paper size the client offers as a scan area.
#[derive(Debug, PartialEq, Eq)]
pub struct PaperSize {
    pub name: String,
    pub dimensions: Dimensions,
}

/// The model of a [`PaperSize`]: name, width and height.
pub struct PaperView {
    pub name: Seq<char>,
    pub x: u32,
    pub y: u32,
}

impl View for PaperSize {
    type V = PaperView;

    open spec fn view(&self) -> PaperView {
        PaperView { name: self.name@, x: self.dimensions.x, y: self.dimensions.y }
    }
}

/// A paper size with name `name`, `x` millimetres wide and `y` high.
pub open spec fn paper_view(name: Seq<char>, x: u32, y: u32) -> PaperView {
    PaperView { name, x, y }
}

/// The paper sizes the client offers: the ISO A and B sizes, DIN D sizes
/// and the North American sizes, portrait and some landscape.
pub open spec fn paper_sizes_model() -> Seq<PaperView> {
    seq![
            paper_view("A3 (@:paper-size.portrait)"@, 297, 420),
            paper_view("A4 (@:paper-size.portrait)"@, 210, 297),
            paper_view("A5 (@:paper-size.portrait)"@, 148, 210),
            paper_view("A5 (@:paper-size.landscape)"@, 210, 148),
            paper_view("A6 (@:paper-size.portrait)"@, 105, 148),
            paper_view("A6 (@:paper-size.landscape)"@, 148, 105),
            paper_view("B3 (@:paper-size.portrait)"@, 353, 500),
            paper_view("B4 (@:paper-size.portrait)"@, 250, 353),
            paper_view("B5 (@:paper-size.portrait)"@, 176, 250),
            paper_view("B5 (@:paper-size.landscape)"@, 250, 176),
            paper_view("B6 (@:paper-size.portrait)"@, 125, 176),
            paper_view("B6 (@:paper-size.landscape)"@, 176, 125),
            paper_view("DIN D3 (@:paper-size.portrait)"@, 272, 385),
            paper_view("DIN D4 (@:paper-size.portrait)"@, 192, 272),
            paper_view("DIN D5 (@:paper-size.portrait)"@, 136, 192),
            paper_view("DIN D5 (@:paper-size.landscape)"@, 192, 136),
            paper_view("DIN D6 (@:paper-size.portrait)"@, 96, 136),
            paper_view("DIN D6 (@:paper-size.landscape)"@, 136, 96),
            paper_view("@:paper-size.letter (@:paper-size.portrait)"@, 216, 279),
            paper_view("@:paper-size.legal (@:paper-size.portrait)"@, 216, 356),
            paper_view("@:paper-size.tabloid (@:paper-size.portrait)"@, 279, 432),
            paper_view("@:paper-size.ledger (@:paper-size.portrait)"@, 432, 279),
            paper_view("@:paper-size.junior-legal (@:paper-size.portrait)"@, 127, 203),
            paper_view("@:paper-size.half-letter (@:paper-size.portrait)"@, 140, 216)
    ]
}

/// `s` ends with `t`.
pub open spec fn ends_with(s: Seq<char>, t: Seq<char>) -> bool {
    t.len() <= s.len() && s.subrange(s.len() - t.len(), s.len() as int) == t
}

/// What a portrait paper size's name ends with.
pub open spec fn portrait_tag() -> Seq<char> {
    "(@:paper-size.portrait)"@
}

/// What a landscape paper size's name ends with.
pub open spec fn landscape_tag() -> Seq<char> {
    "(@:paper-size.landscape)"@
}

/// A name without its orientation `tag`.
pub open spec fn stem(name: Seq<char>, tag: Seq<char>) -> Seq<char> {
    name.subrange(0, name.len() - tag.len())
}

/// The ledger, the one sheet listed as portrait though it lies wide.
pub open spec fn ledger_name() -> Seq<char> {
    "@:paper-size.ledger (@:paper-size.portrait)"@
}

/// Entry `i` of `m` is named portrait or landscape; a landscape sheet is
/// wider than high, a portrait one (the ledger apart) higher than wide; and
/// a landscape sheet follows the portrait sheet of the same name, turned.
pub open spec fn entry_laws(m: Seq<PaperView>, i: int) -> bool {
    let p = m[i];
    &&& ends_with(p.name, portrait_tag()) || ends_with(p.name, landscape_tag())
    &&& ends_with(p.name, landscape_tag()) ==> p.x > p.y
    &&& ends_with(p.name, portrait_tag()) && p.name != ledger_name() ==> p.x < p.y
    &&& ends_with(p.name, landscape_tag()) ==> {
        &&& 0 < i
        &&& ends_with(m[i - 1].name, portrait_tag())
        &&& stem(p.name, landscape_tag()) == stem(m[i - 1].name, portrait_tag())
        &&& p.x == m[i - 1].y
        &&& p.y == m[i - 1].x
    }
}

/// Every paper size is named portrait or landscape. A landscape size is
/// wider than high and a portrait size higher than wide, the ledger alone
/// excepted; each landscape size comes right after the portrait size of the
/// same name, with width and height swapped.
pub proof fn lemma_paper_orientation()
    ensures
        forall|i: int|
            #![trigger paper_sizes_model()[i]]
            0 <= i < paper_sizes_model().len() ==> {
            let m = paper_sizes_model();
            let p = m[i];
            &&& ends_with(p.name, portrait_tag()) || ends_with(p.name, landscape_tag())
            &&& ends_with(p.name, landscape_tag()) ==> p.x > p.y
            &&& ends_with(p.name, portrait_tag()) && p.name != ledger_name() ==> p.x < p.y
            &&& ends_with(p.name, landscape_tag()) ==> {
                &&& 0 < i
                &&& ends_with(m[i - 1].name, portrait_tag())
                &&& stem(p.name, landscape_tag()) == stem(m[i - 1].name, portrait_tag())
                &&& p.x == m[i - 1].y
                &&& p.y == m[i - 1].x
            }
        },
{
    let m = paper_sizes_model();
    assert(entry_laws(m, 0)) by {
        reveal_strlit("A3 (@:paper-size.portrait)");
        reveal_strlit("(@:paper-size.portrait)");
        reveal_strlit("(@:paper-size.landscape)");
        assert(m[0].name.subrange(3, 26) =~= portrait_tag());
        assert(m[0].name.subrange(2, 26)[22] != landscape_tag()[22]);
    }
    assert(entry_laws(m, 1)) by {
        reveal_strlit("A4 (@:paper-size.portrait)");
        reveal_strlit("A3 (@:paper-size.portrait)");
        reveal_strlit("(@:paper-size.portrait)");
        reveal_strlit("(@:paper-size.landscape)");
        assert(m[1].name.subrange(3, 26) =~= portrait_tag());
        assert(m[1].name.subrange(2, 26)[22] != landscape_tag()[22]);
    }
    assert(entry_laws(m, 2)) by {
        reveal_strlit("A5 (@:paper-size.portrait)");
        reveal_strlit("A4 (@:paper-size.portrait)");
        reveal_strlit("(@:paper-size.portrait)");
        reveal_strlit("(@:paper-size.landscape)");
        assert(m[2].name.subrange(3, 26) =~= portrait_tag());
        assert(m[2].name.subrange(2, 26)[22] != landscape_tag()[22]);
    }
    assert(entry_laws(m, 3)) by {
        reveal_strlit("A5 (@:paper-size.landscape)");
        reveal_strlit("A5 (@:paper-size.portrait)");
        reveal_strlit("(@:paper-size.portrait)");
        reveal_strlit("(@:paper-size.landscape)");
        assert(m[3].name.subrange(3, 27) =~= landscape_tag());
        assert(m[3].name.subrange(4, 27)[21] != portrait_tag()[21]);
        assert(m[2].name.subrange(3, 26) =~= portrait_tag());
        assert(m[2].name.subrange(2, 26)[22] != landscape_tag()[22]);
        assert(stem(m[3].name, landscape_tag()) =~= stem(m[2].name, portrait_tag()));
    }
    assert(entry_laws(m, 4)) by {
        reveal_strlit("A6 (@:paper-size.portrait)");
        reveal_strlit("A5 (@:paper-size.landscape)");
        reveal_strlit("(@:paper-size.portrait)");
        reveal_strlit("(@:paper-size.landscape)");
        assert(m[4].name.subrange(3, 26) =~= portrait_tag());
        assert(m[4].name.subrange(2, 26)[22] != landscape_tag()[22]);
    }
    assert(entry_laws(m, 5)) by {
        reveal_strlit("A6 (@:paper-size.landscape)");
        reveal_strlit("A6 (@:paper-size.portrait)");
        reveal_strlit("(@:paper-size.portrait)");
        reveal_strlit("(@:paper-size.landscape)");
        assert(m[5].name.subrange(3, 27) =~= landscape_tag());
        assert(m[5].name.subrange(4, 27)[21] != portrait_tag()[21]);
        assert(m[4].name.subrange(3, 26) =~= portrait_tag());
        assert(m[4].name.subrange(2, 26)[22] != landscape_tag()[22]);
        assert(stem(m[5].name, landscape_tag()) =~= stem(m[4].name, portrait_tag()));
    }
    assert(entry_laws(m, 6)) by {
        reveal_strlit("B3 (@:paper-size.portrait)");
        reveal_strlit("A6 (@:paper-size.landscape)");
        reveal_strlit("(@:paper-size.portrait)");
        reveal_strlit("(@:paper-size.landscape)");
        assert(m[6].name.subrange(3, 26) =~= portrait_tag());
        assert(m[6].name.subrange(2, 26)[22] != landscape_tag()[22]);
    }
    assert(entry_laws(m, 7)) by {
        reveal_strlit("B4 (@:paper-size.portrait)");
        reveal_strlit("B3 (@:paper-size.portrait)");
        reveal_strlit("(@:paper-size.portrait)");
        reveal_strlit("(@:paper-size.landscape)");
        assert(m[7].name.subrange(3, 26) =~= portrait_tag());
        assert(m[7].name.subrange(2, 26)[22] != landscape_tag()[22]);
    }
    assert(entry_laws(m, 8)) by {
        reveal_strlit("B5 (@:paper-size.portrait)");
        reveal_strlit("B4 (@:paper-size.portrait)");
        reveal_strlit("(@:paper-size.portrait)");
        reveal_strlit("(@:paper-size.landscape)");
        assert(m[8].name.subrange(3, 26) =~= portrait_tag());
        assert(m[8].name.subrange(2, 26)[22] != landscape_tag()[22]);
    }
    assert(entry_laws(m, 9)) by {
        reveal_strlit("B5 (@:paper-size.landscape)");
        reveal_strlit("B5 (@:paper-size.portrait)");
        reveal_strlit("(@:paper-size.portrait)");
        reveal_strlit("(@:paper-size.landscape)");
        assert(m[9].name.subrange(3, 27) =~= landscape_tag());
        assert(m[9].name.subrange(4, 27)[21] != portrait_tag()[21]);
        assert(m[8].name.subrange(3, 26) =~= portrait_tag());
        assert(m[8].name.subrange(2, 26)[22] != landscape_tag()[22]);
        assert(stem(m[9].name, landscape_tag()) =~= stem(m[8].name, portrait_tag()));
    }
    assert(entry_laws(m, 10)) by {
        reveal_strlit("B6 (@:paper-size.portrait)");
        reveal_strlit("B5 (@:paper-size.landscape)");
        reveal_strlit("(@:paper-size.portrait)");
        reveal_strlit("(@:paper-size.landscape)");
        assert(m[10].name.subrange(3, 26) =~= portrait_tag());
        assert(m[10].name.subrange(2, 26)[22] != landscape_tag()[22]);
    }
    assert(entry_laws(m, 11)) by {
        reveal_strlit("B6 (@:paper-size.landscape)");
        reveal_strlit("B6 (@:paper-size.portrait)");
        reveal_strlit("(@:paper-size.portrait)");
        reveal_strlit("(@:paper-size.landscape)");
        assert(m[11].name.subrange(3, 27) =~= landscape_tag());
        assert(m[11].name.subrange(4, 27)[21] != portrait_tag()[21]);
        assert(m[10].name.subrange(3, 26) =~= portrait_tag());
        assert(m[10].name.subrange(2, 26)[22] != landscape_tag()[22]);
        assert(stem(m[11].name, landscape_tag()) =~= stem(m[10].name, portrait_tag()));
    }
    assert(entry_laws(m, 12)) by {
        reveal_strlit("DIN D3 (@:paper-size.portrait)");
        reveal_strlit("B6 (@:paper-size.landscape)");
        reveal_strlit("(@:paper-size.portrait)");
        reveal_strlit("(@:paper-size.landscape)");
        assert(m[12].name.subrange(7, 30) =~= portrait_tag());
        assert(m[12].name.subrange(6, 30)[22] != landscape_tag()[22]);
    }
    assert(entry_laws(m, 13)) by {
        reveal_strlit("DIN D4 (@:paper-size.portrait)");
        reveal_strlit("DIN D3 (@:paper-size.portrait)");
        reveal_strlit("(@:paper-size.portrait)");
        reveal_strlit("(@:paper-size.landscape)");
        assert(m[13].name.subrange(7, 30) =~= portrait_tag());
        assert(m[13].name.subrange(6, 30)[22] != landscape_tag()[22]);
    }
    assert(entry_laws(m, 14)) by {
        reveal_strlit("DIN D5 (@:paper-size.portrait)");
        reveal_strlit("DIN D4 (@:paper-size.portrait)");
        reveal_strlit("(@:paper-size.portrait)");
        reveal_strlit("(@:paper-size.landscape)");
        assert(m[14].name.subrange(7, 30) =~= portrait_tag());
        assert(m[14].name.subrange(6, 30)[22] != landscape_tag()[22]);
    }
    assert(entry_laws(m, 15)) by {
        reveal_strlit("DIN D5 (@:paper-size.landscape)");
        reveal_strlit("DIN D5 (@:paper-size.portrait)");
        reveal_strlit("(@:paper-size.portrait)");
        reveal_strlit("(@:paper-size.landscape)");
        assert(m[15].name.subrange(7, 31) =~= landscape_tag());
        assert(m[15].name.subrange(8, 31)[21] != portrait_tag()[21]);
        assert(m[14].name.subrange(7, 30) =~= portrait_tag());
        assert(m[14].name.subrange(6, 30)[22] != landscape_tag()[22]);
        assert(stem(m[15].name, landscape_tag()) =~= stem(m[14].name, portrait_tag()));
    }
    assert(entry_laws(m, 16)) by {
        reveal_strlit("DIN D6 (@:paper-size.portrait)");
        reveal_strlit("DIN D5 (@:paper-size.landscape)");
        reveal_strlit("(@:paper-size.portrait)");
        reveal_strlit("(@:paper-size.landscape)");
        assert(m[16].name.subrange(7, 30) =~= portrait_tag());
        assert(m[16].name.subrange(6, 30)[22] != landscape_tag()[22]);
    }
    assert(entry_laws(m, 17)) by {
        reveal_strlit("DIN D6 (@:paper-size.landscape)");
        reveal_strlit("DIN D6 (@:paper-size.portrait)");
        reveal_strlit("(@:paper-size.portrait)");
        reveal_strlit("(@:paper-size.landscape)");
        assert(m[17].name.subrange(7, 31) =~= landscape_tag());
        assert(m[17].name.subrange(8, 31)[21] != portrait_tag()[21]);
        assert(m[16].name.subrange(7, 30) =~= portrait_tag());
        assert(m[16].name.subrange(6, 30)[22] != landscape_tag()[22]);
        assert(stem(m[17].name, landscape_tag()) =~= stem(m[16].name, portrait_tag()));
    }
    assert(entry_laws(m, 18)) by {
        reveal_strlit("@:paper-size.letter (@:paper-size.portrait)");
        reveal_strlit("DIN D6 (@:paper-size.landscape)");
        reveal_strlit("(@:paper-size.portrait)");
        reveal_strlit("(@:paper-size.landscape)");
        assert(m[18].name.subrange(20, 43) =~= portrait_tag());
        assert(m[18].name.subrange(19, 43)[22] != landscape_tag()[22]);
    }
    assert(entry_laws(m, 19)) by {
        reveal_strlit("@:paper-size.legal (@:paper-size.portrait)");
        reveal_strlit("@:paper-size.letter (@:paper-size.portrait)");
        reveal_strlit("(@:paper-size.portrait)");
        reveal_strlit("(@:paper-size.landscape)");
        assert(m[19].name.subrange(19, 42) =~= portrait_tag());
        assert(m[19].name.subrange(18, 42)[22] != landscape_tag()[22]);
    }
    assert(entry_laws(m, 20)) by {
        reveal_strlit("@:paper-size.tabloid (@:paper-size.portrait)");
        reveal_strlit("@:paper-size.legal (@:paper-size.portrait)");
        reveal_strlit("(@:paper-size.portrait)");
        reveal_strlit("(@:paper-size.landscape)");
        assert(m[20].name.subrange(21, 44) =~= portrait_tag());
        assert(m[20].name.subrange(20, 44)[22] != landscape_tag()[22]);
    }
    assert(entry_laws(m, 21)) by {
        reveal_strlit("@:paper-size.ledger (@:paper-size.portrait)");
        reveal_strlit("@:paper-size.tabloid (@:paper-size.portrait)");
        reveal_strlit("(@:paper-size.portrait)");
        reveal_strlit("(@:paper-size.landscape)");
        assert(m[21].name.subrange(20, 43) =~= portrait_tag());
        assert(m[21].name.subrange(19, 43)[22] != landscape_tag()[22]);
    }
    assert(entry_laws(m, 22)) by {
        reveal_strlit("@:paper-size.junior-legal (@:paper-size.portrait)");
        reveal_strlit("@:paper-size.ledger (@:paper-size.portrait)");
        reveal_strlit("(@:paper-size.portrait)");
        reveal_strlit("(@:paper-size.landscape)");
        assert(m[22].name.subrange(26, 49) =~= portrait_tag());
        assert(m[22].name.subrange(25, 49)[22] != landscape_tag()[22]);
    }
    assert(entry_laws(m, 23)) by {
        reveal_strlit("@:paper-size.half-letter (@:paper-size.portrait)");
        reveal_strlit("@:paper-size.junior-legal (@:paper-size.portrait)");
        reveal_strlit("(@:paper-size.portrait)");
        reveal_strlit("(@:paper-size.landscape)");
        assert(m[23].name.subrange(25, 48) =~= portrait_tag());
        assert(m[23].name.subrange(24, 48)[22] != landscape_tag()[22]);
    }
    assert forall|i: int| 0 <= i < m.len() implies #[trigger] entry_laws(m, i) by {
        if i == 0 {
        } else if i == 1 {
        } else if i == 2 {
        } else if i == 3 {
        } else if i == 4 {
        } else if i == 5 {
        } else if i == 6 {
        } else if i == 7 {
        } else if i == 8 {
        } else if i == 9 {
        } else if i == 10 {
        } else if i == 11 {
        } else if i == 12 {
        } else if i == 13 {
        } else if i == 14 {
        } else if i == 15 {
        } else if i == 16 {
        } else if i == 17 {
        } else if i == 18 {
        } else if i == 19 {
        } else if i == 20 {
        } else if i == 21 {
        } else if i == 22 {
        } else if i == 23 {
        }
    }

}

/// A sheet of `small` is a sheet of `big` folded in half across its height:
/// as wide as half the height, rounded down, and as high as the width.
pub open spec fn folded(big: PaperView, small: PaperView) -> bool {
    small.x == big.y / 2 && small.y == big.x
}

/// The paper named `name` is entry `i`.
pub open spec fn named(m: Seq<PaperView>, i: int, name: Seq<char>) -> bool {
    0 <= i < m.len() && m[i].name == name
}

/// The ISO 216 A and B series and the DIN D series each halve from one size
/// to the next (A3 to A4 to A5 to A6, and so on); a tabloid is two letters
/// side by side, a half letter is a letter folded (rounded up), a legal is
/// as wide as a letter, and a ledger is a tabloid turned.
pub proof fn lemma_paper_series()
    ensures
        ({
            let m = paper_sizes_model();
            &&& exists|i: int, j: int| named(m, i, "A3 (@:paper-size.portrait)"@) && named(m, j, "A4 (@:paper-size.portrait)"@) && folded(m[i], m[j])
            &&& exists|i: int, j: int| named(m, i, "A4 (@:paper-size.portrait)"@) && named(m, j, "A5 (@:paper-size.portrait)"@) && folded(m[i], m[j])
            &&& exists|i: int, j: int| named(m, i, "A5 (@:paper-size.portrait)"@) && named(m, j, "A6 (@:paper-size.portrait)"@) && folded(m[i], m[j])
            &&& exists|i: int, j: int| named(m, i, "B3 (@:paper-size.portrait)"@) && named(m, j, "B4 (@:paper-size.portrait)"@) && folded(m[i], m[j])
            &&& exists|i: int, j: int| named(m, i, "B4 (@:paper-size.portrait)"@) && named(m, j, "B5 (@:paper-size.portrait)"@) && folded(m[i], m[j])
            &&& exists|i: int, j: int| named(m, i, "B5 (@:paper-size.portrait)"@) && named(m, j, "B6 (@:paper-size.portrait)"@) && folded(m[i], m[j])
            &&& exists|i: int, j: int| named(m, i, "DIN D3 (@:paper-size.portrait)"@) && named(m, j, "DIN D4 (@:paper-size.portrait)"@) && folded(m[i], m[j])
            &&& exists|i: int, j: int| named(m, i, "DIN D4 (@:paper-size.portrait)"@) && named(m, j, "DIN D5 (@:paper-size.portrait)"@) && folded(m[i], m[j])
            &&& exists|i: int, j: int| named(m, i, "DIN D5 (@:paper-size.portrait)"@) && named(m, j, "DIN D6 (@:paper-size.portrait)"@) && folded(m[i], m[j])
            &&& exists|i: int, j: int|
                named(m, i, "@:paper-size.letter (@:paper-size.portrait)"@) && named(m, j, "@:paper-size.tabloid (@:paper-size.portrait)"@)
                    && m[j].x == m[i].y && m[j].y == 2 * m[i].x
            &&& exists|i: int, j: int|
                named(m, i, "@:paper-size.letter (@:paper-size.portrait)"@) && named(m, j, "@:paper-size.half-letter (@:paper-size.portrait)"@)
                    && m[j].x == (m[i].y + 1) / 2 && m[j].y == m[i].x
            &&& exists|i: int, j: int|
                named(m, i, "@:paper-size.letter (@:paper-size.portrait)"@) && named(m, j, "@:paper-size.legal (@:paper-size.portrait)"@)
                    && m[j].x == m[i].x && m[j].y > m[i].y
            &&& exists|i: int, j: int|
                named(m, i, "@:paper-size.tabloid (@:paper-size.portrait)"@) && named(m, j, "@:paper-size.ledger (@:paper-size.portrait)"@)
                    && m[j].x == m[i].y && m[j].y == m[i].x
        }),
{
    let m = paper_sizes_model();
    assert(named(m, 0, "A3 (@:paper-size.portrait)"@) && named(m, 1, "A4 (@:paper-size.portrait)"@) && folded(m[0], m[1]));
    assert(named(m, 1, "A4 (@:paper-size.portrait)"@) && named(m, 2, "A5 (@:paper-size.portrait)"@) && folded(m[1], m[2]));
    assert(named(m, 2, "A5 (@:paper-size.portrait)"@) && named(m, 4, "A6 (@:paper-size.portrait)"@) && folded(m[2], m[4]));
    assert(named(m, 6, "B3 (@:paper-size.portrait)"@) && named(m, 7, "B4 (@:paper-size.portrait)"@) && folded(m[6], m[7]));
    assert(named(m, 7, "B4 (@:paper-size.portrait)"@) && named(m, 8, "B5 (@:paper-size.portrait)"@) && folded(m[7], m[8]));
    assert(named(m, 8, "B5 (@:paper-size.portrait)"@) && named(m, 10, "B6 (@:paper-size.portrait)"@) && folded(m[8], m[10]));
    assert(named(m, 12, "DIN D3 (@:paper-size.portrait)"@) && named(m, 13, "DIN D4 (@:paper-size.portrait)"@) && folded(m[12], m[13]));
    assert(named(m, 13, "DIN D4 (@:paper-size.portrait)"@) && named(m, 14, "DIN D5 (@:paper-size.portrait)"@) && folded(m[13], m[14]));
    assert(named(m, 14, "DIN D5 (@:paper-size.portrait)"@) && named(m, 16, "DIN D6 (@:paper-size.portrait)"@) && folded(m[14], m[16]));
    assert(named(m, 18, "@:paper-size.letter (@:paper-size.portrait)"@) && named(m, 20, "@:paper-size.tabloid (@:paper-size.portrait)"@));
    assert(named(m, 23, "@:paper-size.half-letter (@:paper-size.portrait)"@));
    assert(named(m, 19, "@:paper-size.legal (@:paper-size.portrait)"@));
    assert(named(m, 21, "@:paper-size.ledger (@:paper-size.portrait)"@));
}

/// The sheet `x` by `y` millimetres folded in half `n` times across its
/// height, each fold rounding the new width down to a whole millimetre.
pub open spec fn folded_times(x: int, y: int, n: nat) -> (int, int)
    decreases n,
{
    if n == 0 {
        (x, y)
    } else {
        folded_times(y / 2, x, (n - 1) as nat)
    }
}

/// `tenths` tenths of an inch in whole millimetres, rounded to nearest.
pub open spec fn inch_tenths_mm(tenths: int) -> int {
    (tenths * 254 + 50) / 100
}

/// The paper named `name` in `m` is `x` by `y` millimetres.
pub open spec fn sized(m: Seq<PaperView>, name: Seq<char>, x: int, y: int) -> bool {
    exists|i: int| #[trigger] named(m, i, name) && m[i].x == x && m[i].y == y
}

/// The sizes agree with their standards: A3, B3 and D3 are the ISO 216 A0
/// (841 by 1189 mm), ISO 216 B0 (1000 by 1414 mm) and DIN 476 D0 (771 by
/// 1090 mm) folded three times; the North American sheets are their sizes
/// in inches (letter 8.5 by 11, legal 8.5 by 14, tabloid 11 by 17, ledger
/// 17 by 11, junior legal 5 by 8, half letter 5.5 by 8.5) in millimetres,
/// rounded.
pub proof fn lemma_paper_standards()
    ensures
        ({
            let m = paper_sizes_model();
            &&& sized(m, "A3 (@:paper-size.portrait)"@, folded_times(841, 1189, 3).0, folded_times(841, 1189, 3).1)
            &&& sized(m, "B3 (@:paper-size.portrait)"@, folded_times(1000, 1414, 3).0, folded_times(1000, 1414, 3).1)
            &&& sized(m, "DIN D3 (@:paper-size.portrait)"@, folded_times(771, 1090, 3).0, folded_times(771, 1090, 3).1)
            &&& sized(m, "@:paper-size.letter (@:paper-size.portrait)"@, inch_tenths_mm(85), inch_tenths_mm(110))
            &&& sized(m, "@:paper-size.legal (@:paper-size.portrait)"@, inch_tenths_mm(85), inch_tenths_mm(140))
            &&& sized(m, "@:paper-size.tabloid (@:paper-size.portrait)"@, inch_tenths_mm(110), inch_tenths_mm(170))
            &&& sized(m, "@:paper-size.ledger (@:paper-size.portrait)"@, inch_tenths_mm(170), inch_tenths_mm(110))
            &&& sized(m, "@:paper-size.junior-legal (@:paper-size.portrait)"@, inch_tenths_mm(50), inch_tenths_mm(80))
            &&& sized(m, "@:paper-size.half-letter (@:paper-size.portrait)"@, inch_tenths_mm(55), inch_tenths_mm(85))
        }),
{
    let m = paper_sizes_model();
    reveal_with_fuel(folded_times, 4);
    assert(folded_times(841, 1189, 3) == (297int, 420int));
    assert(folded_times(1000, 1414, 3) == (353int, 500int));
    assert(folded_times(771, 1090, 3) == (272int, 385int));
    assert(named(m, 0, "A3 (@:paper-size.portrait)"@));
    assert(named(m, 6, "B3 (@:paper-size.portrait)"@));
    assert(named(m, 12, "DIN D3 (@:paper-size.portrait)"@));
    assert(named(m, 18, "@:paper-size.letter (@:paper-size.portrait)"@));
    assert(named(m, 19, "@:paper-size.legal (@:paper-size.portrait)"@));
    assert(named(m, 20, "@:paper-size.tabloid (@:paper-size.portrait)"@));
    assert(named(m, 21, "@:paper-size.ledger (@:paper-size.portrait)"@));
    assert(named(m, 22, "@:paper-size.junior-legal (@:paper-size.portrait)"@));
    assert(named(m, 23, "@:paper-size.half-letter (@:paper-size.portrait)"@));
}

/// The models of a sequence of paper sizes.
pub open spec fn paper_views(v: Seq<PaperSize>) -> Seq<PaperView> {
    v.map_values(|p: PaperSize| p@)
}

fn paper(name: &str, x: u32, y: u32) -> (p: PaperSize)
    ensures
        p@ == paper_view(name@, x, y),
{
    PaperSize { name: String::from_str(name), dimensions: Dimensions { x, y } }
}

/// The paper sizes the client offers.
pub fn paper_sizes() -> (v: Vec<PaperSize>)
    ensures
        paper_views(v@) == paper_sizes_model(),
{
    let p0 = paper("A3 (@:paper-size.portrait)", 297, 420);
    let p1 = paper("A4 (@:paper-size.portrait)", 210, 297);
    let p2 = paper("A5 (@:paper-size.portrait)", 148, 210);
    let p3 = paper("A5 (@:paper-size.landscape)", 210, 148);
    let p4 = paper("A6 (@:paper-size.portrait)", 105, 148);
    let p5 = paper("A6 (@:paper-size.landscape)", 148, 105);
    let p6 = paper("B3 (@:paper-size.portrait)", 353, 500);
    let p7 = paper("B4 (@:paper-size.portrait)", 250, 353);
    let p8 = paper("B5 (@:paper-size.portrait)", 176, 250);
    let p9 = paper("B5 (@:paper-size.landscape)", 250, 176);
    let p10 = paper("B6 (@:paper-size.portrait)", 125, 176);
    let p11 = paper("B6 (@:paper-size.landscape)", 176, 125);
    let p12 = paper("DIN D3 (@:paper-size.portrait)", 272, 385);
    let p13 = paper("DIN D4 (@:paper-size.portrait)", 192, 272);
    let p14 = paper("DIN D5 (@:paper-size.portrait)", 136, 192);
    let p15 = paper("DIN D5 (@:paper-size.landscape)", 192, 136);
    let p16 = paper("DIN D6 (@:paper-size.portrait)", 96, 136);
    let p17 = paper("DIN D6 (@:paper-size.landscape)", 136, 96);
    let p18 = paper("@:paper-size.letter (@:paper-size.portrait)", 216, 279);
    let p19 = paper("@:paper-size.legal (@:paper-size.portrait)", 216, 356);
    let p20 = paper("@:paper-size.tabloid (@:paper-size.portrait)", 279, 432);
    let p21 = paper("@:paper-size.ledger (@:paper-size.portrait)", 432, 279);
    let p22 = paper("@:paper-size.junior-legal (@:paper-size.portrait)", 127, 203);
    let p23 = paper("@:paper-size.half-letter (@:paper-size.portrait)", 140, 216);
    let v = vec![
        p0, p1, p2, p3, p4, p5, p6, p7, p8, p9, p10, p11, p12, p13, p14, p15, p16, p17, p18, p19,
        p20, p21, p22, p23,
    ];
    assert(paper_views(v@) =~= paper_sizes_model());
    v
}

/// What the client learns at start: the devices, the service's version, the
/// paper sizes, and the actions it may run after a scan.
#[derive(Debug, PartialEq, Eq)]
pub struct ContextResponse {
    pub devices: Vec<Device>,
    pub version: String,
    pub paper_sizes: Vec<PaperSize>,
    pub actions: Vec<String>,
}

/// The context of a service at version `version`: the Epson Perfection
/// V600 as its only device, the paper sizes, and no actions.
pub fn context_response(version: String) -> (c: ContextResponse)
    ensures
        c.devices@.len() == 1,
        c.devices@[0]@ == epson_v600_model(),
        c.version@ == version@,
        paper_views(c.paper_sizes@) == paper_sizes_model(),
        c.actions@.len() == 0,
{
    ContextResponse {
        devices: vec![epson_v600()],
        version,
        paper_sizes: paper_sizes(),
        actions: Vec::new(),
    }
}

} // verus!

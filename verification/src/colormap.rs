//! The read-only table of named color maps.
//!
//! Each color map is a key-ordered list of `(numeric key, RGBA color)`
//! pairs. The table is built once at startup from a configured directory and
//! passed into step generation, so that tests can substitute fixtures.

use vstd::prelude::*;

verus! {

/// The name of a built-in color map.
#[derive(Clone, Copy, Debug, PartialEq, Eq, Structural)]
pub enum TiffColorMapName {
    SwissBedrockBEM,
    SwissBedrockTMUD,
    SwissBedrockUncertainty,
    SwissBedrockVersion,
    SwissBedrockChange,
    SwissBedrockAuthor,
}

/// The text of a color map name, as it appears in documents and file names.
pub open spec fn spec_color_map_name(n: TiffColorMapName) -> Seq<char> {
    match n {
        TiffColorMapName::SwissBedrockBEM => "swissBEDROCK_BEM"@,
        TiffColorMapName::SwissBedrockTMUD => "swissBEDROCK_TMUD"@,
        TiffColorMapName::SwissBedrockUncertainty => "swissBEDROCK_Uncertainty"@,
        TiffColorMapName::SwissBedrockVersion => "swissBEDROCK_Version"@,
        TiffColorMapName::SwissBedrockChange => "swissBEDROCK_Change"@,
        TiffColorMapName::SwissBedrockAuthor => "swissBEDROCK_Author"@,
    }
}

impl TiffColorMapName {
    /// The text of the name, as it appears in documents and file names.
    pub fn name(&self) -> (r: &'static str)
        ensures
            r@ == spec_color_map_name(*self),
    {
        match self {
            TiffColorMapName::SwissBedrockBEM => "swissBEDROCK_BEM",
            TiffColorMapName::SwissBedrockTMUD => "swissBEDROCK_TMUD",
            TiffColorMapName::SwissBedrockUncertainty => "swissBEDROCK_Uncertainty",
            TiffColorMapName::SwissBedrockVersion => "swissBEDROCK_Version",
            TiffColorMapName::SwissBedrockChange => "swissBEDROCK_Change",
            TiffColorMapName::SwissBedrockAuthor => "swissBEDROCK_Author",
        }
    }

    /// All names, in declaration order.
    pub fn all() -> (r: Vec<TiffColorMapName>)
        ensures
            r@ =~= seq![
                TiffColorMapName::SwissBedrockBEM,
                TiffColorMapName::SwissBedrockTMUD,
                TiffColorMapName::SwissBedrockUncertainty,
                TiffColorMapName::SwissBedrockVersion,
                TiffColorMapName::SwissBedrockChange,
                TiffColorMapName::SwissBedrockAuthor,
            ],
    {
        let mut r: Vec<TiffColorMapName> = Vec::new();
        r.push(TiffColorMapName::SwissBedrockBEM);
        r.push(TiffColorMapName::SwissBedrockTMUD);
        r.push(TiffColorMapName::SwissBedrockUncertainty);
        r.push(TiffColorMapName::SwissBedrockVersion);
        r.push(TiffColorMapName::SwissBedrockChange);
        r.push(TiffColorMapName::SwissBedrockAuthor);
        r
    }
}

/// One step of a color map: a numeric key and its RGBA color.
#[derive(Clone, Copy, Debug, PartialEq, Eq)]
pub struct ColorMapEntry {
    pub key: u32,
    pub color: (u32, u32, u32, u32),
}

/// One named color map.
#[derive(Debug)]
pub struct ColorMap {
    pub name: TiffColorMapName,
    pub entries: Vec<ColorMapEntry>,
}

/// The mathematical value of a [`ColorMap`].
#[verifier::ext_equal]
pub ghost struct ColorMapView {
    pub name: TiffColorMapName,
    pub entries: Seq<ColorMapEntry>,
}

impl View for ColorMap {
    type V = ColorMapView;

    open spec fn view(&self) -> ColorMapView {
        ColorMapView { name: self.name, entries: self.entries@ }
    }
}

/// The table of every loaded color map.
#[derive(Debug)]
pub struct ColorMapTable {
    pub maps: Vec<ColorMap>,
}

impl View for ColorMapTable {
    type V = Seq<ColorMapView>;

    open spec fn view(&self) -> Seq<ColorMapView> {
        crate::seq_view(self.maps@)
    }
}

/// Whether the table holds a map named `n`.
pub open spec fn spec_table_has(table: Seq<ColorMapView>, n: TiffColorMapName) -> bool {
    exists|i: int| 0 <= i < table.len() && table[i].name == n
}

/// The entries of the first map named `n`; meaningful only when the table
/// holds one.
pub open spec fn spec_table_entries(table: Seq<ColorMapView>, n: TiffColorMapName) -> Seq<
    ColorMapEntry,
>
    decreases table.len(),
{
    if table.len() == 0 {
        Seq::empty()
    } else if table[0].name == n {
        table[0].entries
    } else {
        spec_table_entries(table.subrange(1, table.len() as int), n)
    }
}

/// A name that occurs at `j` and nowhere before is found there.
pub proof fn lemma_table_entries(table: Seq<ColorMapView>, n: TiffColorMapName, j: int)
    requires
        0 <= j < table.len(),
        table[j].name == n,
        forall|i: int| 0 <= i < j ==> table[i].name != n,
    ensures
        spec_table_has(table, n),
        spec_table_entries(table, n) == table[j].entries,
    decreases j,
{
    if j == 0 {
    } else {
        let rest = table.subrange(1, table.len() as int);
        lemma_table_entries(rest, n, j - 1);
    }
}

impl ColorMapTable {
    /// Looks the color map named `n` up in the table.
    pub fn definition(&self, n: TiffColorMapName) -> (r: Option<&Vec<ColorMapEntry>>)
        ensures
            match r {
                Some(entries) => spec_table_has(self@, n) && entries@ == spec_table_entries(
                    self@,
                    n,
                ),
                None => !spec_table_has(self@, n),
            },
    {
        let mut k: usize = 0;
        while k < self.maps.len()
            invariant
                0 <= k <= self.maps@.len(),
                forall|i: int| 0 <= i < k ==> self@[i].name != n,
            decreases self.maps@.len() - k,
        {
            if self.maps[k].name == n {
                proof {
                    assert(self@[k as int].name == n);
                    lemma_table_entries(self@, n, k as int);
                }
                return Some(&self.maps[k].entries);
            }
            proof {
                assert(self@[k as int].name == self.maps@[k as int].name);
            }
            k += 1;
        }
        None
    }
}

} // verus!

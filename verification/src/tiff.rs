//! Raster band layers and their display definitions, including the
//! derivation of numeric legend steps.

use vstd::prelude::*;
use crate::colormap::{ColorMapEntry, ColorMapTable, ColorMapView, TiffColorMapName};
use crate::colormap::{spec_color_map_name, spec_table_entries, spec_table_has};
use crate::decimal::{decimal_string, spec_decimal};
use crate::error::{ConfigError, ErrorView, ReferenceKind};
use crate::pool::{bump, keys_view, pool_find, pool_view, spec_bump, spec_first_key};
use crate::seq_contains_str;
use crate::seq_view;
use crate::source::{LayerSource, SourceView};

verus! {

/// The unit of a band's values.
#[derive(Clone, Copy, Debug, PartialEq, Eq, Structural)]
pub enum TiffLayerUnit {
    Meters,
    MetersAboveSeaLevel,
}

/// One step of a band's legend: a bare value, or a value with its label.
#[derive(Debug)]
pub enum TiffLayerBandStepValue {
    /// A simple step value, labelled with the value's own decimal text.
    Simple(i32),
    /// A step value with a custom label.
    Labelled { value: i32, label: String },
}

/// The mathematical value of a [`TiffLayerBandStepValue`].
#[verifier::ext_equal]
pub ghost enum StepValueView {
    Simple(i32),
    Labelled { value: i32, label: Seq<char> },
}

impl View for TiffLayerBandStepValue {
    type V = StepValueView;

    open spec fn view(&self) -> StepValueView {
        match self {
            TiffLayerBandStepValue::Simple(v) => StepValueView::Simple(*v),
            TiffLayerBandStepValue::Labelled { value, label } => StepValueView::Labelled {
                value: *value,
                label: label@,
            },
        }
    }
}

impl Clone for TiffLayerBandStepValue {
    fn clone(&self) -> (r: Self)
        ensures
            r@ == self@,
    {
        match self {
            TiffLayerBandStepValue::Simple(v) => TiffLayerBandStepValue::Simple(*v),
            TiffLayerBandStepValue::Labelled { value, label } => TiffLayerBandStepValue::Labelled {
                value: *value,
                label: label.clone(),
            },
        }
    }
}

/// The legend steps of a band display: either bare labels whose positions
/// are computed, or fully written-out steps.
#[derive(Debug)]
pub enum TiffLayerBandSteps {
    /// Evenly separated steps, labelled with the list's elements.
    Labels(Vec<String>),
    /// Fully customized steps.
    Values(Vec<TiffLayerBandStepValue>),
}

/// The mathematical value of a [`TiffLayerBandSteps`].
#[verifier::ext_equal]
pub ghost enum StepsView {
    Labels(Seq<Seq<char>>),
    Values(Seq<StepValueView>),
}

impl View for TiffLayerBandSteps {
    type V = StepsView;

    open spec fn view(&self) -> StepsView {
        match self {
            TiffLayerBandSteps::Labels(ls) => StepsView::Labels(crate::strings_view(ls@)),
            TiffLayerBandSteps::Values(vs) => StepsView::Values(seq_view(vs@)),
        }
    }
}

impl Clone for TiffLayerBandSteps {
    fn clone(&self) -> (r: Self)
        ensures
            r@ == self@,
    {
        match self {
            TiffLayerBandSteps::Labels(ls) => {
                let r = TiffLayerBandSteps::Labels(crate::clone_strings(ls));
                proof {
                    assert(r@ =~= self@);
                }
                r
            },
            TiffLayerBandSteps::Values(vs) => {
                let rs = vs.clone();
                proof {
                    assert forall|i: int| 0 <= i < vs@.len() implies rs@[i]@ == vs@[i]@ by {
                        assert(cloned::<TiffLayerBandStepValue>(vs@[i], rs@[i]));
                    }
                    assert(seq_view(rs@) =~= seq_view(vs@));
                }
                TiffLayerBandSteps::Values(rs)
            },
        }
    }
}

/// How one band of a raster layer is rendered: value bounds, the color map,
/// and the legend steps.
#[derive(Debug)]
pub struct TiffLayerBandDisplayDefinition {
    /// The lower and upper bounds of displayed values. Bounds given in
    /// descending order make the legend render descending.
    pub bounds: (i32, i32),
    /// The value that represents the absence of data on this band.
    pub no_data: Option<i32>,
    /// The color map with which the band is rendered.
    pub color_map: TiffColorMapName,
    /// The steps shown on the band's colored legend; computed from the
    /// bounds or the color map when the document gives none.
    pub steps: Option<TiffLayerBandSteps>,
    /// Whether each of the band's values is discrete.
    pub is_discrete: bool,
    /// How many times this definition has been referenced.
    pub use_count: u32,
}

/// The mathematical value of a [`TiffLayerBandDisplayDefinition`].
#[verifier::ext_equal]
pub ghost struct DisplayDefinitionView {
    pub bounds: (i32, i32),
    pub no_data: Option<i32>,
    pub color_map: TiffColorMapName,
    pub steps: Option<StepsView>,
    pub is_discrete: bool,
    pub use_count: u32,
}

impl DisplayDefinitionView {
    /// The same definition with its use count one higher.
    pub open spec fn bumped(self) -> Self {
        DisplayDefinitionView { use_count: spec_bump(self.use_count), ..self }
    }
}

impl View for TiffLayerBandDisplayDefinition {
    type V = DisplayDefinitionView;

    open spec fn view(&self) -> DisplayDefinitionView {
        DisplayDefinitionView {
            bounds: self.bounds,
            no_data: self.no_data,
            color_map: self.color_map,
            steps: match &self.steps {
                Some(s) => Some(s@),
                None => None,
            },
            is_discrete: self.is_discrete,
            use_count: self.use_count,
        }
    }
}

impl Clone for TiffLayerBandDisplayDefinition {
    fn clone(&self) -> (r: Self)
        ensures
            r@ == self@,
    {
        TiffLayerBandDisplayDefinition {
            bounds: self.bounds,
            no_data: self.no_data,
            color_map: self.color_map,
            steps: match &self.steps {
                Some(s) => Some(s.clone()),
                None => None,
            },
            is_discrete: self.is_discrete,
            use_count: self.use_count,
        }
    }
}

impl TiffLayerBandDisplayDefinition {
    /// Increments the definition's use count.
    pub fn increment_use_count(&mut self)
        ensures
            final(self)@ == old(self)@.bumped(),
    {
        self.use_count = bump(self.use_count);
    }
}

/// A band's display: a by-name reference into the document's display pool,
/// or a definition written in place.
#[derive(Debug)]
pub enum TiffLayerBandDisplay {
    Reference(String),
    Definition(TiffLayerBandDisplayDefinition),
}

/// The mathematical value of a [`TiffLayerBandDisplay`].
#[verifier::ext_equal]
pub ghost enum DisplayView {
    Reference(Seq<char>),
    Definition(DisplayDefinitionView),
}

impl View for TiffLayerBandDisplay {
    type V = DisplayView;

    open spec fn view(&self) -> DisplayView {
        match self {
            TiffLayerBandDisplay::Reference(name) => DisplayView::Reference(name@),
            TiffLayerBandDisplay::Definition(d) => DisplayView::Definition(d@),
        }
    }
}

impl Clone for TiffLayerBandDisplay {
    fn clone(&self) -> (r: Self)
        ensures
            r@ == self@,
    {
        match self {
            TiffLayerBandDisplay::Reference(name) => TiffLayerBandDisplay::Reference(name.clone()),
            TiffLayerBandDisplay::Definition(d) => TiffLayerBandDisplay::Definition(d.clone()),
        }
    }
}

/// One band of a raster layer.
#[derive(Debug)]
pub struct TiffLayerBand {
    /// The band's index within the raster.
    pub index: u32,
    /// The band's name.
    pub name: String,
    /// The unit of the band's values.
    pub unit: Option<TiffLayerUnit>,
    /// How the band is rendered, if it can be displayed individually.
    pub display: Option<TiffLayerBandDisplay>,
}

/// The mathematical value of a [`TiffLayerBand`].
#[verifier::ext_equal]
pub ghost struct BandView {
    pub index: u32,
    pub name: Seq<char>,
    pub unit: Option<TiffLayerUnit>,
    pub display: Option<DisplayView>,
}

impl View for TiffLayerBand {
    type V = BandView;

    open spec fn view(&self) -> BandView {
        BandView {
            index: self.index,
            name: self.name@,
            unit: self.unit,
            display: match &self.display {
                Some(d) => Some(d@),
                None => None,
            },
        }
    }
}

/// A raster layer with one or more displayable bands.
#[derive(Debug)]
pub struct TiffLayer {
    /// Where the raster is loaded from.
    pub source: LayerSource,
    /// The source for the layer's terrain, if it is not draped directly
    /// onto the default terrain.
    pub terrain: Option<LayerSource>,
    /// The width and height of each of the raster's cells, in meters.
    pub cell_size: u32,
    /// Configurations for the raster's bands.
    pub bands: Vec<TiffLayerBand>,
}

/// The mathematical value of a [`TiffLayer`].
#[verifier::ext_equal]
pub ghost struct TiffLayerView {
    pub source: SourceView,
    pub terrain: Option<SourceView>,
    pub cell_size: u32,
    pub bands: Seq<BandView>,
}

impl View for TiffLayer {
    type V = TiffLayerView;

    open spec fn view(&self) -> TiffLayerView {
        TiffLayerView {
            source: self.source@,
            terrain: match &self.terrain {
                Some(t) => Some(t@),
                None => None,
            },
            cell_size: self.cell_size,
            bands: seq_view(self.bands@),
        }
    }
}

/// The value bounds in ascending order, with the flag saying whether the
/// document gave them reversed.
pub open spec fn spec_range(bounds: (i32, i32)) -> (int, int, bool) {
    if bounds.0 < bounds.1 {
        (bounds.0 as int, bounds.1 as int, false)
    } else {
        (bounds.1 as int, bounds.0 as int, true)
    }
}

/// `range * num / den` rounded to the nearest integer, halves rounding up;
/// meant for `0 <= num <= den` and `range >= 0`.
pub open spec fn spec_round_ratio(range: int, num: int, den: int) -> int {
    (2 * range * num + den) / (2 * den)
}

/// The rounded ratio lies between zero and `range`.
pub proof fn lemma_round_ratio_bounds(range: int, num: int, den: int)
    requires
        0 <= range,
        0 <= num <= den,
        0 < den,
    ensures
        0 <= spec_round_ratio(range, num, den) <= range,
{
    let a = 2 * range * num + den;
    let b = 2 * den;
    assert(0 <= a && a < b * (range + 1)) by (nonlinear_arith)
        requires
            0 <= range,
            0 <= num <= den,
            0 < den,
            a == 2 * range * num + den,
            b == 2 * den,
    ;
    vstd::arithmetic::div_mod::lemma_multiply_divide_lt(a, b, range + 1);
    vstd::arithmetic::div_mod::lemma_div_pos_is_pos(a, b);
}

/// The position of the step for label `i` among `n` labels placed on
/// `[min, max]`: bucket centers in discrete mode, an even spread with both
/// endpoints in continuous mode, rounded to the nearest integer.
pub open spec fn spec_label_value(min: int, max: int, is_discrete: bool, n: int, i: int) -> int {
    if is_discrete {
        min + spec_round_ratio(max - min, 2 * i + 1, 2 * n)
    } else if n == 1 {
        min
    } else {
        min + spec_round_ratio(max - min, i, n - 1)
    }
}

/// Label steps converted to value steps over the normalized bounds.
pub open spec fn spec_normalized_labels(
    labels: Seq<Seq<char>>,
    bounds: (i32, i32),
    is_discrete: bool,
) -> Seq<StepValueView> {
    let (min, max, _r) = spec_range(bounds);
    Seq::new(
        labels.len(),
        |i: int|
            StepValueView::Labelled {
                value: spec_label_value(min, max, is_discrete, labels.len() as int, i) as i32,
                label: labels[i],
            },
    )
}

/// Written-out steps normalized: a bare value is labelled with its own
/// decimal text, a labelled value stays as it is.
pub open spec fn spec_normalized_values(vs: Seq<StepValueView>) -> Seq<StepValueView> {
    Seq::new(
        vs.len(),
        |i: int|
            match vs[i] {
                StepValueView::Simple(v) => StepValueView::Labelled {
                    value: v,
                    label: spec_decimal(v as int),
                },
                StepValueView::Labelled { value, label } => StepValueView::Labelled {
                    value,
                    label,
                },
            },
    )
}

/// Explicitly given steps normalized to fully labelled value steps.
/// The orientation of the bounds does not affect this computation.
pub open spec fn spec_normalize_steps(
    bounds: (i32, i32),
    is_discrete: bool,
    steps: StepsView,
) -> StepsView {
    match steps {
        StepsView::Values(vs) => StepsView::Values(spec_normalized_values(vs)),
        StepsView::Labels(ls) => StepsView::Values(spec_normalized_labels(ls, bounds, is_discrete)),
    }
}

/// One step per entry of the color map, labelled with its own key.
pub open spec fn spec_steps_from_color_map(entries: Seq<ColorMapEntry>) -> StepsView {
    StepsView::Values(
        Seq::new(
            entries.len(),
            |i: int|
                StepValueView::Labelled {
                    value: entries[i].key as i32,
                    label: spec_decimal((entries[i].key as i32) as int),
                },
        ),
    )
}

/// The step at ascending position `i` of the six evenly spaced steps
/// across the bounds.
pub open spec fn spec_bounds_step(bounds: (i32, i32), i: int) -> StepValueView {
    let (min, max, _r) = spec_range(bounds);
    let v = min + spec_round_ratio(max - min, i, 5);
    StepValueView::Labelled { value: v as i32, label: spec_decimal(v as i32 as int) }
}

/// Six evenly spaced steps across the bounds, emitted in reverse order
/// when the bounds were given reversed.
pub open spec fn spec_steps_from_bounds(bounds: (i32, i32)) -> StepsView {
    let (_min, _max, reversed) = spec_range(bounds);
    StepsView::Values(
        Seq::new(
            6,
            |i: int|
                if reversed {
                    spec_bounds_step(bounds, 5 - i)
                } else {
                    spec_bounds_step(bounds, i)
                },
        ),
    )
}

/// A display definition with its steps derived: explicit steps are
/// normalized; absent steps are generated from the color map in discrete
/// mode and from the bounds in continuous mode. A discrete definition whose
/// color map is not in the table fails the build.
pub open spec fn spec_parse_display(d: DisplayDefinitionView, table: Seq<ColorMapView>) -> Result<
    DisplayDefinitionView,
    ErrorView,
> {
    match d.steps {
        Some(steps) => Ok(
            DisplayDefinitionView {
                steps: Some(spec_normalize_steps(d.bounds, d.is_discrete, steps)),
                ..d
            },
        ),
        None => {
            if d.is_discrete {
                if spec_table_has(table, d.color_map) {
                    Ok(
                        DisplayDefinitionView {
                            steps: Some(
                                spec_steps_from_color_map(spec_table_entries(table, d.color_map)),
                            ),
                            ..d
                        },
                    )
                } else {
                    Err(
                        ErrorView::UnknownReference {
                            kind: ReferenceKind::ColorMap,
                            name: spec_color_map_name(d.color_map),
                            document: Seq::empty(),
                        },
                    )
                }
            } else {
                Ok(DisplayDefinitionView { steps: Some(spec_steps_from_bounds(d.bounds)), ..d })
            }
        },
    }
}

impl TiffLayerBandDisplayDefinition {
    /// The value bounds in ascending order, and whether the document gave
    /// them reversed.
    pub fn range(&self) -> (r: (i32, i32, bool))
        ensures
            (r.0 as int, r.1 as int, r.2) == spec_range(self.bounds),
    {
        let (a, b) = self.bounds;
        if a < b {
            (a, b, false)
        } else {
            (b, a, true)
        }
    }

    /// Converts explicitly given steps to fully labelled value steps. Bare
    /// values are labelled with their own decimal text; bare labels are
    /// placed over the normalized bounds, bucket centers in discrete mode
    /// and an even spread in continuous mode.
    pub fn normalize_steps(&self, steps: TiffLayerBandSteps) -> (r: TiffLayerBandSteps)
        ensures
            r@ == spec_normalize_steps(self.bounds, self.is_discrete, steps@),
    {
        match steps {
            TiffLayerBandSteps::Values(vs) => {
                let mut out: Vec<TiffLayerBandStepValue> = Vec::new();
                let mut k: usize = 0;
                while k < vs.len()
                    invariant
                        0 <= k <= vs@.len(),
                        out@.len() == k,
                        forall|i: int| 0 <= i < k ==> out@[i]@ == spec_normalized_values(
                            seq_view(vs@),
                        )[i],
                    decreases vs@.len() - k,
                {
                    match &vs[k] {
                        TiffLayerBandStepValue::Simple(v) => {
                            let label = decimal_string(*v as i64);
                            out.push(TiffLayerBandStepValue::Labelled { value: *v, label });
                        },
                        TiffLayerBandStepValue::Labelled { value, label } => {
                            out.push(
                                TiffLayerBandStepValue::Labelled {
                                    value: *value,
                                    label: label.clone(),
                                },
                            );
                        },
                    }
                    proof {
                        assert(seq_view(vs@)[k as int] == vs@[k as int]@);
                    }
                    k += 1;
                }
                let r = TiffLayerBandSteps::Values(out);
                proof {
                    assert(seq_view(out@) =~= spec_normalized_values(seq_view(vs@)));
                }
                r
            },
            TiffLayerBandSteps::Labels(labels) => {
                let (min32, max32, _rev) = self.range();
                let n = labels.len();
                let mut out: Vec<TiffLayerBandStepValue> = Vec::new();
                let mut k: usize = 0;
                let ghost minmax = spec_range(self.bounds);
                while k < labels.len()
                    invariant
                        0 <= k <= labels@.len(),
                        n == labels@.len(),
                        out@.len() == k,
                        minmax == spec_range(self.bounds),
                        min32 as int == minmax.0,
                        max32 as int == minmax.1,
                        min32 <= max32,
                        forall|i: int| 0 <= i < k ==> out@[i]@ == spec_normalized_labels(
                            crate::strings_view(labels@),
                            self.bounds,
                            self.is_discrete,
                        )[i],
                    decreases labels@.len() - k,
                {
                    let value = label_value(min32, max32, self.is_discrete, n, k);
                    out.push(
                        TiffLayerBandStepValue::Labelled {
                            value,
                            label: labels[k].clone(),
                        },
                    );
                    proof {
                        assert(crate::strings_view(labels@)[k as int] == labels@[k as int]@);
                    }
                    k += 1;
                }
                let r = TiffLayerBandSteps::Values(out);
                proof {
                    assert(seq_view(out@) =~= spec_normalized_labels(
                        crate::strings_view(labels@),
                        self.bounds,
                        self.is_discrete,
                    ));
                }
                r
            },
        }
    }
}

impl TiffLayerBandDisplayDefinition {
    /// One legend step per entry of the color map, labelled with its own
    /// key; the map must be present in the table.
    pub fn make_steps_from_color_map(&self, table: &ColorMapTable) -> (r: Result<
        TiffLayerBandSteps,
        ConfigError,
    >)
        ensures
            match r {
                Ok(s) => spec_table_has(table@, self.color_map) && s@ == spec_steps_from_color_map(
                    spec_table_entries(table@, self.color_map),
                ),
                Err(e) => !spec_table_has(table@, self.color_map) && e@
                    == (ErrorView::UnknownReference {
                    kind: ReferenceKind::ColorMap,
                    name: spec_color_map_name(self.color_map),
                    document: Seq::empty(),
                }),
            },
    {
        let entries = match table.definition(self.color_map) {
            Some(entries) => entries,
            None => {
                return Err(
                    ConfigError::UnknownReference {
                        kind: ReferenceKind::ColorMap,
                        name: String::from_str(self.color_map.name()),
                        document: String::new(),
                    },
                );
            },
        };
        let mut out: Vec<TiffLayerBandStepValue> = Vec::new();
        let mut k: usize = 0;
        while k < entries.len()
            invariant
                0 <= k <= entries@.len(),
                out@.len() == k,
                forall|i: int| 0 <= i < k ==> out@[i]@ == (StepValueView::Labelled {
                    value: entries@[i].key as i32,
                    label: spec_decimal((entries@[i].key as i32) as int),
                }),
            decreases entries@.len() - k,
        {
            let key: i32 = #[verifier::truncate] (entries[k].key as i32);
            let label = decimal_string(key as i64);
            out.push(TiffLayerBandStepValue::Labelled { value: key, label });
            k += 1;
        }
        let r = TiffLayerBandSteps::Values(out);
        proof {
            assert(r@->Values_0 =~= spec_steps_from_color_map(
                spec_table_entries(table@, self.color_map),
            )->Values_0);
        }
        Ok(r)
    }

    /// Six evenly spaced legend steps across the bounds, in descending
    /// order when the bounds were given reversed.
    pub fn make_steps_from_bounds(&self) -> (r: TiffLayerBandSteps)
        ensures
            r@ == spec_steps_from_bounds(self.bounds),
    {
        let (min32, max32, reversed) = self.range();
        let mut out: Vec<TiffLayerBandStepValue> = Vec::new();
        let mut k: usize = 0;
        while k < 6
            invariant
                0 <= k <= 6,
                out@.len() == k,
                (min32 as int, max32 as int, reversed) == spec_range(self.bounds),
                min32 <= max32,
                forall|i: int| 0 <= i < k ==> out@[i]@ == (if reversed {
                    spec_bounds_step(self.bounds, 5 - i)
                } else {
                    spec_bounds_step(self.bounds, i)
                }),
            decreases 6 - k,
        {
            let pos: usize = if reversed {
                5 - k
            } else {
                k
            };
            let v = label_value(min32, max32, false, 6, pos);
            let label = decimal_string(v as i64);
            out.push(TiffLayerBandStepValue::Labelled { value: v, label });
            k += 1;
        }
        let r = TiffLayerBandSteps::Values(out);
        proof {
            assert(r@->Values_0 =~= spec_steps_from_bounds(self.bounds)->Values_0);
        }
        r
    }

    /// The legend steps used when the document gives none: the color map's
    /// own keys in discrete mode, six evenly spaced steps otherwise.
    pub fn make_steps_from_config(&self, table: &ColorMapTable) -> (r: Result<
        TiffLayerBandSteps,
        ConfigError,
    >)
        ensures
            match r {
                Ok(s) => (if self.is_discrete {
                    spec_table_has(table@, self.color_map) && s@ == spec_steps_from_color_map(
                        spec_table_entries(table@, self.color_map),
                    )
                } else {
                    s@ == spec_steps_from_bounds(self.bounds)
                }),
                Err(e) => self.is_discrete && !spec_table_has(table@, self.color_map) && e@
                    == (ErrorView::UnknownReference {
                    kind: ReferenceKind::ColorMap,
                    name: spec_color_map_name(self.color_map),
                    document: Seq::empty(),
                }),
            },
    {
        if self.is_discrete {
            self.make_steps_from_color_map(table)
        } else {
            Ok(self.make_steps_from_bounds())
        }
    }

    /// Derives the definition's legend steps: explicit steps are
    /// normalized, absent steps are generated from the color map or the
    /// bounds.
    pub fn parse(self, table: &ColorMapTable) -> (r: Result<Self, ConfigError>)
        ensures
            match r {
                Ok(d) => spec_parse_display(self@, table@) == Ok::<_, ErrorView>(d@),
                Err(e) => spec_parse_display(self@, table@) == Err::<DisplayDefinitionView, _>(
                    e@,
                ),
            },
    {
        let explicit = match &self.steps {
            Some(s) => Some(s.clone()),
            None => None,
        };
        let new_steps = match explicit {
            Some(st) => self.normalize_steps(st),
            None => {
                match self.make_steps_from_config(table) {
                    Ok(s) => s,
                    Err(e) => {
                        return Err(e);
                    },
                }
            },
        };
        let TiffLayerBandDisplayDefinition {
            bounds,
            no_data,
            color_map,
            steps: _,
            is_discrete,
            use_count,
        } = self;
        Ok(
            TiffLayerBandDisplayDefinition {
                bounds,
                no_data,
                color_map,
                steps: Some(new_steps),
                is_discrete,
                use_count,
            },
        )
    }
}

/// The step value for label `k` of `n` labels placed on `[min, max]`.
fn label_value(min: i32, max: i32, is_discrete: bool, n: usize, k: usize) -> (v: i32)
    requires
        min <= max,
        k < n,
    ensures
        v as int == spec_label_value(min as int, max as int, is_discrete, n as int, k as int),
{
    let range: u128 = (max as i64 - min as i64) as u128;
    let (num, den): (u128, u128) = if is_discrete {
        (2 * (k as u128) + 1, 2 * (n as u128))
    } else if n == 1 {
        proof {
            assert(spec_label_value(min as int, max as int, is_discrete, n as int, k as int)
                == min as int);
        }
        return min;
    } else {
        (k as u128, (n as u128) - 1)
    };
    proof {
        assert(range < 0x100000000u128);
        assert(num <= den);
        assert(den <= 0x20000000000000000u128);
        assert((2 * (range as int) * (num as int) + (den as int)) < (u128::MAX as int)) by (nonlinear_arith)
            requires
                range < 0x100000000u128,
                num <= den,
                den <= 0x20000000000000000u128,
        ;
    }
    let q: u128 = (2 * range * num + den) / (2 * den);
    proof {
        assert(q as int == spec_round_ratio(range as int, num as int, den as int));
        lemma_round_ratio_bounds(range as int, num as int, den as int);
    }
    let v: i64 = (min as i64) + (q as i64);
    proof {
        assert(v as int == spec_label_value(
            min as int,
            max as int,
            is_discrete,
            n as int,
            k as int,
        ));
    }
    v as i32
}

/// The names of a display-pool view's entries.
pub open spec fn spec_display_keys(pool: Seq<(Seq<char>, DisplayDefinitionView)>) -> Seq<
    Seq<char>,
> {
    Seq::new(pool.len(), |i: int| pool[i].0)
}

/// Resolves one band against the display pool: a by-name display reference
/// is replaced by the pool definition of that name, whose use count is
/// incremented first; an in-place definition gets its steps derived.
pub open spec fn spec_parse_band(
    b: BandView,
    pool: Seq<(Seq<char>, DisplayDefinitionView)>,
    table: Seq<ColorMapView>,
) -> Result<(BandView, Seq<(Seq<char>, DisplayDefinitionView)>), ErrorView> {
    match b.display {
        None => Ok((b, pool)),
        Some(DisplayView::Reference(name)) => {
            if seq_contains_str(spec_display_keys(pool), name) {
                let j = spec_first_key(spec_display_keys(pool), name);
                let d = pool[j].1.bumped();
                Ok(
                    (
                        BandView { display: Some(DisplayView::Definition(d)), ..b },
                        pool.update(j, (pool[j].0, d)),
                    ),
                )
            } else {
                Err(
                    ErrorView::UnknownReference {
                        kind: ReferenceKind::TiffDisplay,
                        name,
                        document: Seq::empty(),
                    },
                )
            }
        },
        Some(DisplayView::Definition(def)) => match spec_parse_display(def, table) {
            Ok(d) => Ok((BandView { display: Some(DisplayView::Definition(d)), ..b }, pool)),
            Err(e) => Err(e),
        },
    }
}

/// Resolves a sequence of bands in order, threading the display pool
/// through.
pub open spec fn spec_parse_bands(
    bs: Seq<BandView>,
    pool: Seq<(Seq<char>, DisplayDefinitionView)>,
    table: Seq<ColorMapView>,
) -> Result<(Seq<BandView>, Seq<(Seq<char>, DisplayDefinitionView)>), ErrorView>
    decreases bs.len(),
{
    if bs.len() == 0 {
        Ok((Seq::empty(), pool))
    } else {
        match spec_parse_bands(bs.drop_last(), pool, table) {
            Ok((s, p)) => match spec_parse_band(bs.last(), p, table) {
                Ok((b, p2)) => Ok((s.push(b), p2)),
                Err(e) => Err(e),
            },
            Err(e) => Err(e),
        }
    }
}

/// Once one band fails to resolve, the whole sequence fails with that
/// first error.
pub proof fn lemma_parse_bands_err(
    bs: Seq<BandView>,
    pool: Seq<(Seq<char>, DisplayDefinitionView)>,
    table: Seq<ColorMapView>,
    k: int,
    e: ErrorView,
)
    requires
        0 <= k < bs.len(),
        spec_parse_bands(bs.subrange(0, k), pool, table) matches Ok(sp) && spec_parse_band(
            bs[k],
            sp.1,
            table,
        ) == Err::<(BandView, Seq<(Seq<char>, DisplayDefinitionView)>), ErrorView>(e),
    ensures
        spec_parse_bands(bs, pool, table) == Err::<
            (Seq<BandView>, Seq<(Seq<char>, DisplayDefinitionView)>),
            ErrorView,
        >(e),
    decreases bs.len(),
{
    let prefix = bs.subrange(0, k);
    if k == bs.len() - 1 {
        assert(bs.drop_last() =~= prefix);
        assert(bs.last() == bs[k]);
    } else {
        let b1 = bs.drop_last();
        assert(b1.subrange(0, k) =~= prefix);
        assert(b1[k] == bs[k]);
        lemma_parse_bands_err(b1, pool, table, k, e);
    }
}

/// Resolves a raster layer: every band's display is bound and its legend
/// steps are derived.
pub open spec fn spec_parse_tiff_layer(
    l: TiffLayerView,
    pool: Seq<(Seq<char>, DisplayDefinitionView)>,
    table: Seq<ColorMapView>,
) -> Result<(TiffLayerView, Seq<(Seq<char>, DisplayDefinitionView)>), ErrorView> {
    match spec_parse_bands(l.bands, pool, table) {
        Ok((bs, p)) => Ok((TiffLayerView { bands: bs, ..l }, p)),
        Err(e) => Err(e),
    }
}

impl TiffLayerBand {
    /// Binds the band's display: a by-name reference is replaced by the
    /// pool definition of that name, incrementing the definition's use
    /// count; an in-place definition gets its legend steps derived.
    pub fn parse(
        &self,
        pool: &mut Vec<(String, TiffLayerBandDisplayDefinition)>,
        table: &ColorMapTable,
    ) -> (r: Result<TiffLayerBand, ConfigError>)
        ensures
            match r {
                Ok(b) => spec_parse_band(self@, pool_view(old(pool)@), table@) == Ok::<
                    _,
                    ErrorView,
                >((b@, pool_view(final(pool)@))),
                Err(e) => spec_parse_band(self@, pool_view(old(pool)@), table@) == Err::<
                    (BandView, Seq<(Seq<char>, DisplayDefinitionView)>),
                    _,
                >(e@),
            },
    {
        let ghost p_pre = pool_view(pool@);
        let display = match &self.display {
            None => None,
            Some(TiffLayerBandDisplay::Reference(name)) => {
                proof {
                    assert(spec_display_keys(p_pre) =~= keys_view(pool@));
                }
                match pool_find(pool, name) {
                    Some(j) => {
                        let ghost jj = j as int;
                        let mut d = pool[j].1.clone();
                        d.increment_use_count();
                        proof {
                            assert(d@ == p_pre[jj].1.bumped());
                        }
                        let key = pool[j].0.clone();
                        let d2 = d.clone();
                        pool.set(j, (key, d2));
                        proof {
                            assert(pool_view(pool@) =~= p_pre.update(
                                jj,
                                (p_pre[jj].0, p_pre[jj].1.bumped()),
                            ));
                        }
                        Some(TiffLayerBandDisplay::Definition(d))
                    },
                    None => {
                        return Err(
                            ConfigError::UnknownReference {
                                kind: ReferenceKind::TiffDisplay,
                                name: name.clone(),
                                document: String::new(),
                            },
                        );
                    },
                }
            },
            Some(TiffLayerBandDisplay::Definition(def)) => {
                match def.clone().parse(table) {
                    Ok(d) => Some(TiffLayerBandDisplay::Definition(d)),
                    Err(e) => {
                        return Err(e);
                    },
                }
            },
        };
        Ok(TiffLayerBand { index: self.index, name: self.name.clone(), unit: self.unit, display })
    }
}

impl TiffLayer {
    /// Resolves the layer: every band's display is bound against the pool
    /// and its legend steps are derived.
    pub fn parse(
        self,
        pool: &mut Vec<(String, TiffLayerBandDisplayDefinition)>,
        table: &ColorMapTable,
    ) -> (r: Result<TiffLayer, ConfigError>)
        ensures
            match r {
                Ok(l) => spec_parse_tiff_layer(self@, pool_view(old(pool)@), table@) == Ok::<
                    _,
                    ErrorView,
                >((l@, pool_view(final(pool)@))),
                Err(e) => spec_parse_tiff_layer(self@, pool_view(old(pool)@), table@) == Err::<
                    (TiffLayerView, Seq<(Seq<char>, DisplayDefinitionView)>),
                    _,
                >(e@),
            },
    {
        let ghost all = seq_view(self.bands@);
        let ghost pool0 = pool_view(pool@);
        let mut out: Vec<TiffLayerBand> = Vec::new();
        let mut k: usize = 0;
        proof {
            assert(all.subrange(0, 0) =~= Seq::<BandView>::empty());
            assert(seq_view(out@) =~= Seq::<BandView>::empty());
        }
        while k < self.bands.len()
            invariant
                0 <= k <= self.bands@.len(),
                all == seq_view(self.bands@),
                pool0 == pool_view(old(pool)@),
                spec_parse_bands(all.subrange(0, k as int), pool0, table@) == Ok::<
                    _,
                    ErrorView,
                >((seq_view(out@), pool_view(pool@))),
            decreases self.bands@.len() - k,
        {
            let ghost s_pre = seq_view(out@);
            let ghost p_pre = pool_view(pool@);
            let ghost prefix = all.subrange(0, k as int);
            proof {
                assert(all[k as int] == self.bands@[k as int]@);
            }
            match self.bands[k].parse(pool, table) {
                Ok(b) => {
                    out.push(b);
                    proof {
                        assert(seq_view(out@) =~= s_pre.push(b@));
                    }
                },
                Err(e) => {
                    proof {
                        lemma_parse_bands_err(all, pool0, table@, k as int, e@);
                    }
                    return Err(e);
                },
            }
            proof {
                let prefix1 = all.subrange(0, k as int + 1);
                assert(prefix1.drop_last() =~= prefix);
                assert(prefix1.last() == all[k as int]);
                assert(spec_parse_bands(prefix1, pool0, table@) == Ok::<_, ErrorView>(
                    (seq_view(out@), pool_view(pool@)),
                ));
            }
            k += 1;
        }
        proof {
            assert(all.subrange(0, self.bands@.len() as int) =~= all);
        }
        let TiffLayer { source, terrain, cell_size, bands: _ } = self;
        Ok(TiffLayer { source, terrain, cell_size, bands: out })
    }
}

} // verus!

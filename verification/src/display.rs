//! Resolution presets offered for the nested (game) resolution, derived
//! from the monitor's native resolution, and the labels that show them.
use vstd::prelude::*;

use crate::settings::Resolution;
use crate::text::{
    decimal, find_first_char, find_last_char, first_index_of, joined, last_index_of,
    lemma_decimal_digits, lemma_first_index_of, lemma_first_index_of_is, lemma_last_index_of, lemma_last_index_of_is, lemma_parse_decimal,
    is_digit, parse_u32, parse_u32_str, u32_to_decimal,
};

verus! {

/// A named resolution offered in the preset list.
#[derive(Debug, Clone, Copy, PartialEq, Eq)]
pub struct ResolutionPreset {
    pub label: &'static str,
    pub resolution: Resolution,
}

/// The monitor's native resolution and the presets derived from it.
#[derive(Debug, Clone, PartialEq, Eq)]
pub struct DisplayDefaults {
    pub native: Resolution,
    pub presets: Vec<ResolutionPreset>,
}

/// The largest even number not above `v`.
pub open spec fn even_floor(v: nat) -> nat {
    (v - v % 2) as nat
}

/// `v` divided by the scale `num / den`, rounded to the nearest integer
/// (halves upwards), then down to an even number.
pub open spec fn scaled_dimension(v: nat, num: nat, den: nat) -> nat {
    even_floor((2 * v * den + num) / (2 * num))
}

/// `native` divided by the scale `num / den` in both dimensions.
pub open spec fn scaled(native: Resolution, num: nat, den: nat) -> Resolution {
    Resolution {
        width: scaled_dimension(native.width as nat, num, den) as u32,
        height: scaled_dimension(native.height as nat, num, den) as u32,
    }
}

/// Whether a resolution is large enough to be offered (at least 320x240).
pub open spec fn presentable(r: Resolution) -> bool {
    r.width >= 320 && r.height >= 240
}

/// Whether some preset in `presets` has the resolution `r`.
pub open spec fn offers(presets: Seq<ResolutionPreset>, r: Resolution) -> bool {
    exists|i: int| 0 <= i < presets.len() && #[trigger] presets[i].resolution == r
}

/// `presets` with `p` added at the end, unless `p` is too small or its
/// resolution is offered already.
pub open spec fn with_preset(presets: Seq<ResolutionPreset>, p: ResolutionPreset) -> Seq<
    ResolutionPreset,
> {
    if !presentable(p.resolution) || offers(presets, p.resolution) {
        presets
    } else {
        presets.push(p)
    }
}

/// The presets for a native resolution: native, 1.5x and 2x scale, in that
/// order, each kept when presentable and not a repeat.
pub open spec fn presets_for(native: Resolution) -> Seq<ResolutionPreset> {
    with_preset(
        with_preset(
            with_preset(Seq::empty(), ResolutionPreset { label: "Native", resolution: native }),
            ResolutionPreset { label: "1.5x scale", resolution: scaled(native, 3, 2) },
        ),
        ResolutionPreset { label: "2x scale", resolution: scaled(native, 2, 1) },
    )
}

/// The position of the first preset with resolution `r`, or 0 when none has it.
pub open spec fn preset_index(presets: Seq<ResolutionPreset>, r: Resolution) -> nat
    decreases presets.len(),
{
    if presets.len() == 0 {
        0
    } else if presets.last().resolution == r && !offers(presets.drop_last(), r) {
        (presets.len() - 1) as nat
    } else {
        preset_index(presets.drop_last(), r)
    }
}

/// The largest even number not above `value`.
pub fn round_to_even(value: u32) -> (even: u32)
    ensures
        even == even_floor(value as nat),
{
    value - (value % 2)
}

/// `native` divided by the scale `num / den` and rounded as
/// [`scaled_dimension`] says. For the scales 1.5 and 2 this is what
/// rounding the floating-point quotient gives.
pub fn scaled_resolution(native: Resolution, num: u64, den: u64) -> (r: Resolution)
    requires
        0 < den <= num <= 4,
    ensures
        r == scaled(native, num as nat, den as nat),
{
    Resolution {
        width: scale_dimension(native.width, num, den),
        height: scale_dimension(native.height, num, den),
    }
}

fn scale_dimension(v: u32, num: u64, den: u64) -> (r: u32)
    requires
        0 < den <= num <= 4,
    ensures
        r == scaled_dimension(v as nat, num as nat, den as nat),
        r <= v,
{
    assert(2 * (v as u64) * den <= 8 * 0xffff_ffffu64) by (nonlinear_arith)
        requires
            den <= 4,
    ;
    let n = 2 * (v as u64) * den + num;
    let q = n / (2 * num);
    proof {
        let vi = v as int;
        let di = den as int;
        let ni = num as int;
        assert(2 * vi * di + ni <= 2 * vi * ni + ni) by (nonlinear_arith)
            requires
                0 <= vi,
                0 < di <= ni,
        ;
        assert((2 * vi * ni + ni) / (2 * ni) <= vi) by (nonlinear_arith)
            requires
                0 <= vi,
                0 < ni,
        ;
        assert((2 * vi * di + ni) / (2 * ni) <= (2 * vi * ni + ni) / (2 * ni)) by (nonlinear_arith)
            requires
                2 * vi * di + ni <= 2 * vi * ni + ni,
                0 < ni,
        ;
    }
    let q32 = q as u32;
    round_to_even(q32)
}

/// Adds a preset unless it is smaller than 320x240 or its resolution is
/// offered already.
fn push_unique_preset(
    presets: &mut Vec<ResolutionPreset>,
    label: &'static str,
    resolution: Resolution,
)
    ensures
        final(presets)@ == with_preset(
            old(presets)@,
            ResolutionPreset { label, resolution },
        ),
{
    if resolution.width < 320 || resolution.height < 240 {
        return;
    }
    let mut i: usize = 0;
    while i < presets.len()
        invariant
            i <= presets@.len(),
            forall|j: int| 0 <= j < i ==> presets@[j].resolution != resolution,
        decreases presets@.len() - i,
    {
        if presets[i].resolution == resolution {
            assert(offers(presets@, resolution));
            return;
        }
        i = i + 1;
    }
    presets.push(ResolutionPreset { label, resolution });
}

impl DisplayDefaults {
    /// The presets for a native resolution: "Native", "1.5x scale" and
    /// "2x scale", each only when at least 320x240 and not a repeat.
    pub fn new(native: Resolution) -> (d: Self)
        ensures
            d.native == native,
            d.presets@ == presets_for(native),
    {
        let mut presets: Vec<ResolutionPreset> = Vec::new();
        push_unique_preset(&mut presets, "Native", native);
        push_unique_preset(&mut presets, "1.5x scale", scaled_resolution(native, 3, 2));
        push_unique_preset(&mut presets, "2x scale", scaled_resolution(native, 2, 1));
        DisplayDefaults { native, presets }
    }

    /// The position of the first preset with the given resolution, or 0
    /// when no preset has it (as `u32`, truncated like `as u32`).
    pub fn preset_index_for(&self, resolution: Resolution) -> (i: u32)
        ensures
            i == preset_index(self.presets@, resolution) as u32,
    {
        let n = self.presets.len();
        let mut i: usize = 0;
        while i < n
            invariant
                n == self.presets@.len(),
                i <= n,
                forall|j: int| 0 <= j < i ==> self.presets@[j].resolution != resolution,
            decreases n - i,
        {
            if self.presets[i].resolution == resolution {
                proof {
                    lemma_preset_index_first(self.presets@, resolution, i as int);
                }
                return i as u32;
            }
            i = i + 1;
        }
        proof {
            lemma_preset_index_absent(self.presets@, resolution);
        }
        0
    }
}

proof fn lemma_preset_index_absent(presets: Seq<ResolutionPreset>, r: Resolution)
    requires
        !offers(presets, r),
    ensures
        preset_index(presets, r) == 0,
    decreases presets.len(),
{
    if presets.len() > 0 {
        assert(presets.drop_last().len() < presets.len());
        assert(!offers(presets.drop_last(), r)) by {
            if offers(presets.drop_last(), r) {
                let k = choose|k: int|
                    0 <= k < presets.drop_last().len() && #[trigger] presets.drop_last()[k].resolution
                        == r;
                assert(presets[k].resolution == r);
            }
        }
        assert(presets.last().resolution != r) by {
            let k = presets.len() - 1;
            if presets[k].resolution == r {
                assert(offers(presets, r));
            }
        }
        lemma_preset_index_absent(presets.drop_last(), r);
    }
}

/// [`preset_index`] finds the first preset with the resolution.
pub proof fn lemma_preset_index_first(presets: Seq<ResolutionPreset>, r: Resolution, i: int)
    requires
        0 <= i < presets.len(),
        presets[i].resolution == r,
        forall|j: int| 0 <= j < i ==> presets[j].resolution != r,
    ensures
        preset_index(presets, r) == i,
    decreases presets.len(),
{
    let prefix = presets.drop_last();
    if i == presets.len() - 1 {
        assert(!offers(prefix, r)) by {
            if offers(prefix, r) {
                let k = choose|k: int| 0 <= k < prefix.len() && #[trigger] prefix[k].resolution == r;
                assert(presets[k].resolution == r);
            }
        }
    } else {
        assert(prefix[i].resolution == r);
        assert(offers(prefix, r));
        lemma_preset_index_first(prefix, r, i);
    }
}

impl Default for DisplayDefaults {
    /// The presets for a 1920x1080 monitor.
    fn default() -> (d: Self)
        ensures
            d.native == (Resolution { width: 1920, height: 1080 }),
            d.presets@ == presets_for(Resolution { width: 1920, height: 1080 }),
    {
        Self::new(Resolution { width: 1920, height: 1080 })
    }
}

/// `WIDTHxHEIGHT` in decimal.
pub open spec fn resolution_text(r: Resolution) -> Seq<char> {
    decimal(r.width as nat) + "x"@ + decimal(r.height as nat)
}

/// The text of a preset in the preset chooser: `LABEL - WIDTHxHEIGHT`.
pub open spec fn preset_choice_text(p: ResolutionPreset) -> Seq<char> {
    p.label@ + " - "@ + resolution_text(p.resolution)
}

/// The text of a preset in the suggestion line: `LABEL WIDTHxHEIGHT`.
pub open spec fn preset_brief_text(p: ResolutionPreset) -> Seq<char> {
    p.label@ + " "@ + resolution_text(p.resolution)
}

/// The resolution at the end of a preset text: what follows its last space,
/// split at the first `x` into width and height, each read as `u32`.
pub open spec fn preset_resolution(text: Seq<char>) -> Option<Resolution> {
    let space = last_index_of(text, ' ');
    let tail = text.subrange(space + 1, text.len() as int);
    let x = first_index_of(tail, 'x');
    if space < 0 || x < 0 {
        None
    } else {
        match (parse_u32(tail.subrange(0, x)), parse_u32(tail.subrange(x + 1, tail.len() as int))) {
            (Some(w), Some(h)) => Some(Resolution { width: w, height: h }),
            _ => None,
        }
    }
}

/// Renders a resolution as `WIDTHxHEIGHT`.
pub fn format_resolution(r: Resolution) -> (text: String)
    ensures
        text@ == resolution_text(r),
{
    let mut text = u32_to_decimal(r.width);
    text.append("x");
    let height = u32_to_decimal(r.height);
    text.append(height.as_str());
    text
}

/// The text of a preset in the preset chooser: `LABEL - WIDTHxHEIGHT`.
pub fn preset_label(preset: &ResolutionPreset) -> (text: String)
    ensures
        text@ == preset_choice_text(*preset),
{
    let mut text = String::new();
    text.append(preset.label);
    text.append(" - ");
    let size = format_resolution(preset.resolution);
    text.append(size.as_str());
    assert(text@ =~= preset_choice_text(*preset));
    text
}

/// The suggestion line of the presets: `LABEL WIDTHxHEIGHT` for each,
/// joined with `, `.
pub fn presets_summary(presets: &Vec<ResolutionPreset>) -> (text: String)
    ensures
        text@ == joined(presets@.map_values(|p: ResolutionPreset| preset_brief_text(p)), ", "@),
{
    let ghost items = presets@.map_values(|p: ResolutionPreset| preset_brief_text(p));
    let mut text = String::new();
    let mut i: usize = 0;
    while i < presets.len()
        invariant
            i <= presets@.len(),
            items == presets@.map_values(|p: ResolutionPreset| preset_brief_text(p)),
            text@ == joined(items.subrange(0, i as int), ", "@),
        decreases presets@.len() - i,
    {
        let ghost before = text@;
        if i > 0 {
            text.append(", ");
        }
        let preset = &presets[i];
        text.append(preset.label);
        text.append(" ");
        let size = format_resolution(preset.resolution);
        text.append(size.as_str());
        proof {
            let done = items.subrange(0, i + 1);
            assert(done.drop_last() =~= items.subrange(0, i as int));
            assert(done.last() == preset_brief_text(presets@[i as int]));
            if i == 0 {
                assert(before.len() == 0);
                assert(text@ =~= done[0]);
            } else {
                assert(text@ =~= before + ", "@ + done.last());
            }
        }
        i = i + 1;
    }
    assert(items.subrange(0, presets@.len() as int) =~= items);
    text
}

/// Reads the resolution at the end of a preset text: what follows the last
/// space, split at the first `x` into width and height.
pub fn parse_preset_resolution(label: &str) -> (r: Option<Resolution>)
    ensures
        r == preset_resolution(label@),
{
    let space = match find_last_char(label, ' ') {
        Some(space) => space,
        None => return None,
    };
    proof {
        lemma_last_index_of(label@, ' ');
    }
    let n = label.unicode_len();
    let tail = label.substring_char(space + 1, n);
    let x = match find_first_char(tail, 'x') {
        Some(x) => x,
        None => return None,
    };
    proof {
        lemma_first_index_of(tail@, 'x');
    }
    let m = tail.unicode_len();
    let width = parse_u32_str(tail.substring_char(0, x));
    let height = parse_u32_str(tail.substring_char(x + 1, m));
    match (width, height) {
        (Some(w), Some(h)) => Some(Resolution { width: w, height: h }),
        _ => None,
    }
}

/// The selection shown in a list of `len` entries: `selected`, but not
/// past the last entry (`selected.min(len.saturating_sub(1) as u32)`).
pub open spec fn clamped_selection(selected: u32, len: nat) -> u32 {
    if len == 0 {
        0
    } else if selected <= (len - 1) as u32 {
        selected
    } else {
        (len - 1) as u32
    }
}

/// The selection to show in a list of `len` entries: `selected`, but not
/// past the last entry (`selected.min(len.saturating_sub(1) as u32)`).
pub fn clamp_selection(selected: u32, len: usize) -> (r: u32)
    ensures
        r == clamped_selection(selected, len as nat),
{
    let last = if len == 0 {
        0
    } else {
        len - 1
    };
    let last32 = last as u32;
    if selected <= last32 {
        selected
    } else {
        last32
    }
}

/// Reading the resolution back from a preset's chooser text gives the
/// preset's resolution, whatever its label holds.
pub proof fn lemma_preset_label_round_trip(p: ResolutionPreset)
    ensures
        preset_resolution(preset_choice_text(p)) == Some(p.resolution),
{
    reveal_strlit(" - ");
    reveal_strlit("x");
    let w = decimal(p.resolution.width as nat);
    let h = decimal(p.resolution.height as nat);
    lemma_decimal_digits(p.resolution.width as nat);
    lemma_decimal_digits(p.resolution.height as nat);
    lemma_parse_decimal(p.resolution.width);
    lemma_parse_decimal(p.resolution.height);
    let text = preset_choice_text(p);
    let tail = w + "x"@ + h;
    let space: int = p.label@.len() as int + 2;
    assert(text =~= p.label@ + " - "@ + tail);
    assert(text[space] == ' ');
    assert forall|k: int| space < k < text.len() implies text[k] != ' ' by {
        let t = k - space - 1;
        assert(text[k] == tail[t]);
        if t < w.len() {
            assert(is_digit(w[t]));
        } else if t > w.len() {
            assert(tail[t] == h[t - w.len() - 1]);
            assert(is_digit(h[t - w.len() - 1]));
        }
    }
    lemma_last_index_of_is(text, ' ', space);
    assert(text.subrange(space + 1, text.len() as int) =~= tail);
    assert(tail[w.len() as int] == 'x');
    assert forall|k: int| 0 <= k < w.len() implies tail[k] != 'x' by {
        assert(is_digit(w[k]));
    }
    lemma_first_index_of_is(tail, 'x', w.len() as int);
    assert(tail.subrange(0, w.len() as int) =~= w);
    assert(tail.subrange(w.len() as int + 1, tail.len() as int) =~= h);
}

/// No two presets share a resolution, and every preset is at least 320x240.
pub open spec fn well_formed_presets(presets: Seq<ResolutionPreset>) -> bool {
    &&& forall|i: int| 0 <= i < presets.len() ==> presentable(#[trigger] presets[i].resolution)
    &&& forall|i: int, j: int|
        0 <= i < presets.len() && 0 <= j < presets.len() && i != j ==> #[trigger] presets[i].resolution
            != #[trigger] presets[j].resolution
}

proof fn lemma_with_preset_well_formed(presets: Seq<ResolutionPreset>, p: ResolutionPreset)
    requires
        well_formed_presets(presets),
    ensures
        well_formed_presets(with_preset(presets, p)),
        presets.len() <= with_preset(presets, p).len() <= presets.len() + 1,
{
    if presentable(p.resolution) && !offers(presets, p.resolution) {
        let after = presets.push(p);
        assert forall|i: int, j: int|
            0 <= i < after.len() && 0 <= j < after.len() && i != j implies #[trigger] after[i].resolution
            != #[trigger] after[j].resolution by {
            if i == presets.len() {
                assert(after[j] == presets[j]);
            } else if j == presets.len() {
                assert(after[i] == presets[i]);
            }
        }
    }
}

/// The presets of any native resolution offer each resolution once, are
/// all at least 320x240, are at most three, and start with the native
/// resolution when that is large enough.
pub proof fn lemma_presets_well_formed(native: Resolution)
    ensures
        well_formed_presets(presets_for(native)),
        presets_for(native).len() <= 3,
        presentable(native) ==> presets_for(native)[0] == (ResolutionPreset {
            label: "Native",
            resolution: native,
        }),
{
    let first = ResolutionPreset { label: "Native", resolution: native };
    let one = with_preset(Seq::empty(), first);
    let two = with_preset(one, ResolutionPreset { label: "1.5x scale", resolution: scaled(native, 3, 2) });
    lemma_with_preset_well_formed(Seq::empty(), first);
    lemma_with_preset_well_formed(
        one,
        ResolutionPreset { label: "1.5x scale", resolution: scaled(native, 3, 2) },
    );
    lemma_with_preset_well_formed(
        two,
        ResolutionPreset { label: "2x scale", resolution: scaled(native, 2, 1) },
    );
    if presentable(native) {
        assert(!offers(Seq::<ResolutionPreset>::empty(), native));
        assert(one[0] == first);
        assert(two[0] == first);
    }
}

proof fn lemma_with_preset_offers(presets: Seq<ResolutionPreset>, p: ResolutionPreset, r: Resolution)
    ensures
        offers(with_preset(presets, p), r) <==> offers(presets, r) || (r == p.resolution
            && presentable(r)),
{
    if presentable(p.resolution) && !offers(presets, p.resolution) {
        let after = presets.push(p);
        if offers(presets, r) {
            let k = choose|k: int| 0 <= k < presets.len() && #[trigger] presets[k].resolution == r;
            assert(after[k] == presets[k]);
        }
        if r == p.resolution {
            assert(after[presets.len() as int] == p);
        }
        if offers(after, r) && r != p.resolution {
            let k = choose|k: int| 0 <= k < after.len() && #[trigger] after[k].resolution == r;
            assert(k < presets.len());
            assert(presets[k] == after[k]);
        }
    }
}

/// A candidate resolution (native, 1.5x or 2x scale) is offered exactly
/// when it is at least 320x240: no candidate is dropped for any other
/// reason, and a native resolution of at least 320x240 is always the first
/// preset.
pub proof fn lemma_presets_offer_large_candidates(native: Resolution)
    ensures
        offers(presets_for(native), native) <==> native.width >= 320 && native.height >= 240,
        offers(presets_for(native), scaled(native, 3, 2)) <==> scaled(native, 3, 2).width >= 320
            && scaled(native, 3, 2).height >= 240,
        offers(presets_for(native), scaled(native, 2, 1)) <==> scaled(native, 2, 1).width >= 320
            && scaled(native, 2, 1).height >= 240,
        native.width >= 320 && native.height >= 240 ==> presets_for(native).len() > 0
            && presets_for(native)[0] == (ResolutionPreset { label: "Native", resolution: native }),
{
    let first = ResolutionPreset { label: "Native", resolution: native };
    let second = ResolutionPreset { label: "1.5x scale", resolution: scaled(native, 3, 2) };
    let third = ResolutionPreset { label: "2x scale", resolution: scaled(native, 2, 1) };
    let zero = Seq::<ResolutionPreset>::empty();
    let one = with_preset(zero, first);
    let two = with_preset(one, second);
    lemma_presets_well_formed(native);
    lemma_with_preset_well_formed(zero, first);
    lemma_with_preset_well_formed(one, second);
    lemma_with_preset_well_formed(two, third);
    let presets = presets_for(native);
    // every offered resolution is presentable
    assert forall|r: Resolution| offers(presets, r) implies presentable(r) by {
        let k = choose|k: int| 0 <= k < presets.len() && #[trigger] presets[k].resolution == r;
    }
    lemma_candidate_offered(zero, first, second, third, native);
    lemma_candidate_offered(zero, first, second, third, scaled(native, 3, 2));
    lemma_candidate_offered(zero, first, second, third, scaled(native, 2, 1));
}

proof fn lemma_candidate_offered(
    zero: Seq<ResolutionPreset>,
    first: ResolutionPreset,
    second: ResolutionPreset,
    third: ResolutionPreset,
    r: Resolution,
)
    requires
        zero.len() == 0,
        r == first.resolution || r == second.resolution || r == third.resolution,
    ensures
        presentable(r) ==> offers(with_preset(with_preset(with_preset(zero, first), second), third), r),
{
    let one = with_preset(zero, first);
    let two = with_preset(one, second);
    lemma_with_preset_offers(zero, first, r);
    lemma_with_preset_offers(one, second, r);
    lemma_with_preset_offers(two, third, r);
}

/// Looking up the resolution of a preset finds that preset's position.
pub proof fn lemma_preset_index_finds_preset(native: Resolution, i: int)
    requires
        0 <= i < presets_for(native).len(),
    ensures
        preset_index(presets_for(native), presets_for(native)[i].resolution) == i,
{
    let presets = presets_for(native);
    lemma_presets_well_formed(native);
    lemma_preset_index_first(presets, presets[i].resolution, i);
}

/// Rounding to even gives an even number at most one below the value.
pub proof fn lemma_even_floor(v: nat)
    ensures
        even_floor(v) % 2 == 0,
        even_floor(v) <= v,
        v - even_floor(v) <= 1,
{
}

/// Dividing by a scale of at least 1 gives an even size no larger than the
/// native one.
pub proof fn lemma_scaled_dimension_fits(v: nat, num: nat, den: nat)
    requires
        0 < den <= num,
    ensures
        scaled_dimension(v, num, den) <= v,
        scaled_dimension(v, num, den) % 2 == 0,
{
    let q = (2 * v * den + num) / (2 * num);
    assert(2 * v * den + num <= 2 * v * num + num) by (nonlinear_arith)
        requires
            0 < den <= num,
    ;
    assert((2 * v * num + num) / (2 * num) <= v) by (nonlinear_arith)
        requires
            0 < num,
    ;
    assert(q <= (2 * v * num + num) / (2 * num)) by (nonlinear_arith)
        requires
            q == (2 * v * den + num) / (2 * num),
            2 * v * den + num <= 2 * v * num + num,
            0 < num,
    ;
}

} // verus!

//! The colormap pass: turns an image of palette indices into colours, one texel at a
//! time, and plans its compute dispatch in square workgroups.
use vstd::prelude::*;

verus! {

/// The side of the square workgroup the colormap kernel runs in.
pub const WORKGROUP_SIDE: u32 = 8;

/// Where the colormap pass stands in the render graph: after the named node.
pub struct ColormapPlugin {
    pub prev_node: &'static str,
}

impl ColormapPlugin {
    /// The pass, run after the render-graph node named `prev_node`.
    pub fn with_previous(prev_node: &'static str) -> (r: Self)
        ensures
            r.prev_node == prev_node,
    {
        Self { prev_node }
    }
}

/// The size of an image in texels.
#[derive(Clone, Copy, Debug, PartialEq, Eq)]
pub struct ImageSize {
    pub width: u32,
    pub height: u32,
}

/// The number of workgroups to dispatch along each axis.
#[derive(Clone, Copy, Debug, PartialEq, Eq)]
pub struct Workgroups {
    pub x: u32,
    pub y: u32,
    pub z: u32,
}

/// The number of workgroups that cover `n` texels: `n / WORKGROUP_SIDE` rounded up.
pub open spec fn groups_for(n: int) -> int {
    (n + WORKGROUP_SIDE - 1) / (WORKGROUP_SIDE as int)
}

/// The dispatch that covers an image of `size`, one layer deep.
pub open spec fn workgroups_spec(size: ImageSize) -> Workgroups {
    Workgroups {
        x: groups_for(size.width as int) as u32,
        y: groups_for(size.height as int) as u32,
        z: 1,
    }
}

/// The number of texels of an image of `size`.
pub open spec fn texel_count(size: ImageSize) -> int {
    size.width * size.height
}

fn groups(n: u32) -> (r: u32)
    ensures
        r == groups_for(n as int),
{
    let whole = n / WORKGROUP_SIDE;
    if n % WORKGROUP_SIDE == 0 {
        whole
    } else {
        whole + 1
    }
}

/// The workgroups that cover an image of `size`.
pub fn workgroups(size: ImageSize) -> (r: Workgroups)
    ensures
        r == workgroups_spec(size),
{
    Workgroups { x: groups(size.width), y: groups(size.height), z: 1 }
}

/// Whether the pass may run from `input` into `output`: their sizes must agree exactly.
pub fn sizes_match(input: ImageSize, output: ImageSize) -> (r: bool)
    ensures
        r == (input.width == output.width && input.height == output.height),
{
    input.width == output.width && input.height == output.height
}

/// What the pass dispatches this frame, given the sizes of the input, output and
/// palette images where they are ready. It dispatches only when all three are ready
/// and the input and output sizes agree; then it covers the input.
pub fn plan_dispatch(
    input: Option<ImageSize>,
    output: Option<ImageSize>,
    palette: Option<ImageSize>,
) -> (r: Option<Workgroups>)
    ensures
        r is Some == (input is Some && output is Some && palette is Some && input->0
            == output->0),
        r matches Some(w) ==> w == workgroups_spec(input->0),
{
    match (input, output, palette) {
        (Some(i), Some(o), Some(_)) => {
            if sizes_match(i, o) {
                Some(workgroups(i))
            } else {
                None
            }
        },
        _ => None,
    }
}

/// The palette entry for intensity `v`: entry `v`, or the last entry past the end.
pub open spec fn palette_entry(palette: Seq<u32>, v: u32) -> u32 {
    if (v as int) < palette.len() {
        palette[v as int]
    } else {
        palette.last()
    }
}

/// Each intensity of `input` replaced by its palette entry.
pub open spec fn colormapped(input: Seq<u32>, palette: Seq<u32>) -> Seq<u32> {
    Seq::new(input.len(), |i: int| palette_entry(palette, input[i]))
}

/// Runs the pass on the processor: each texel of `output` becomes the palette entry of
/// the texel of `input` at the same place. It runs only when the two sizes agree and
/// the palette is not empty; otherwise `output` is left exactly as it was.
pub fn apply_colormap(
    input: &Vec<u32>,
    input_size: ImageSize,
    palette: &Vec<u32>,
    output: &mut Vec<u32>,
    output_size: ImageSize,
) -> (ran: bool)
    requires
        input@.len() == texel_count(input_size),
        old(output)@.len() == texel_count(output_size),
    ensures
        ran == (input_size == output_size && palette@.len() > 0),
        ran ==> final(output)@ == colormapped(input@, palette@),
        !ran ==> final(output)@ == old(output)@,
{
    if !sizes_match(input_size, output_size) || palette.len() == 0 {
        return false;
    }
    let n = input.len();
    let last = palette.len() - 1;
    let mut i: usize = 0;
    while i < n
        invariant
            n == input@.len(),
            output@.len() == n,
            last + 1 == palette@.len(),
            i <= n,
            forall|j: int| 0 <= j < i ==> output@[j] == palette_entry(palette@, #[trigger] input@[j]),
        decreases n - i,
    {
        let v = input[i];
        let idx: usize = if (v as usize) < palette.len() {
            v as usize
        } else {
            last
        };
        output.set(i, palette[idx]);
        i = i + 1;
    }
    assert(output@ =~= colormapped(input@, palette@));
    true
}

} // verus!

//! The frames of the animation: the run of frames for one pair of images,
//! and the loop over all pairs.
use vstd::prelude::*;
use vstd::arithmetic::div_mod::{
    lemma_div_is_ordered, lemma_fundamental_div_mod, lemma_fundamental_div_mod_converse,
};
use crate::sidecar::{decimal, joined, sidecar_entry, sidecar_footer, sidecar_header, sidecar_json, sidecar_lines};
use crate::raster::{blend_images, blended_view, Image, ImageView};

verus! {

/// The weight of step `k` of a transition of `n` frames: 255 at step 0,
/// falling evenly toward 0 as `k` grows.
pub open spec fn step_weight_spec(k: nat, n: nat) -> int {
    255 - ((k * 255) as int) / (n as int)
}

/// The parameters of one run: frames per transition, how long an original
/// image stays, how long an in-between frame stays, and the encoder's speed.
#[derive(Clone, Copy, Debug, PartialEq, Eq, Structural)]
pub struct ScheduleConfig {
    pub frame_count: u32,
    pub endpoint_duration_ms: u64,
    pub step_duration_ms: u64,
    pub speed: i32,
}

/// A frame of the animation: its image, how long it stays, and its position
/// in the whole sequence.
#[derive(Clone, Debug, PartialEq, Eq)]
pub struct FrameSpec {
    pub image: Image,
    pub duration_ms: u64,
    pub index: u64,
}

/// What a frame is: its image, its duration and its position.
pub struct FrameView {
    pub image: ImageView,
    pub duration_ms: nat,
    pub index: nat,
}

impl View for FrameSpec {
    type V = FrameView;

    open spec fn view(&self) -> FrameView {
        FrameView {
            image: self.image@,
            duration_ms: self.duration_ms as nat,
            index: self.index as nat,
        }
    }
}

/// Frame `k` of the transition from `x` to `y` in `n` frames, the first of
/// which stands at position `base`: `x` itself for `k == 0`, shown for
/// `endpoint_ms`; otherwise the blend at the weight of step `k`, shown for
/// `step_ms`.
pub open spec fn pair_frame_spec(
    x: ImageView,
    y: ImageView,
    k: nat,
    n: nat,
    endpoint_ms: nat,
    step_ms: nat,
    base: nat,
) -> FrameView {
    if k == 0 {
        FrameView { image: x, duration_ms: endpoint_ms, index: base }
    } else {
        FrameView {
            image: blended_view(x, y, step_weight_spec(k, n) as u8),
            duration_ms: step_ms,
            index: base + k,
        }
    }
}

/// Frame `j` of the whole loop over `images`: frame `j % n` of the transition
/// from image `j / n` to the next one, the last image going back to the
/// first, with `n` frames per transition.
pub open spec fn scheduled_frame_spec(
    images: Seq<ImageView>,
    n: nat,
    endpoint_ms: nat,
    step_ms: nat,
    j: nat,
) -> FrameView {
    let i: int = (j / n) as int;
    pair_frame_spec(
        images[i],
        images[(i + 1) % (images.len() as int)],
        j % n,
        n,
        endpoint_ms,
        step_ms,
        (i * n) as nat,
    )
}

/// The images as the contracts see them.
pub open spec fn views_of(images: Seq<Image>) -> Seq<ImageView> {
    images.map_values(|img: Image| img@)
}

/// What the loop needs of its images: at least one, each well formed, all of
/// the first one's size.
pub open spec fn schedulable(images: Seq<Image>) -> bool {
    &&& images.len() >= 1
    &&& forall|i: int| 0 <= i < images.len() ==> #[trigger] images[i].wf()
    &&& forall|i: int| 0 <= i < images.len() ==> #[trigger] images[i]@.same_size(images[0]@)
}

/// The weight of step `k` of a transition of `frame_count` frames.
pub fn step_weight(k: u32, frame_count: u32) -> (r: u8)
    requires
        k < frame_count,
    ensures
        r == step_weight_spec(k as nat, frame_count as nat),
        1 <= r <= 255,
{
    assert(0 <= (k * 255) / (frame_count as int) <= 254) by (nonlinear_arith)
        requires
            0 <= k < frame_count,
    ;
    (255 - (k as u64 * 255) / frame_count as u64) as u8
}

fn pair_frames(x: &Image, y: &Image, frame_count: u32, endpoint_ms: u64, step_ms: u64, base: u64)
    -> (r: Vec<FrameSpec>)
    requires
        x.wf(),
        y.wf(),
        x@.same_size(y@),
        frame_count >= 1,
        base + frame_count <= u64::MAX + 1,
    ensures
        r@.len() == frame_count,
        forall|k: int|
            0 <= k < frame_count ==> (#[trigger] r@[k])@ == pair_frame_spec(
                x@,
                y@,
                k as nat,
                frame_count as nat,
                endpoint_ms as nat,
                step_ms as nat,
                base as nat,
            ),
{
    let mut r: Vec<FrameSpec> = Vec::with_capacity(frame_count as usize);
    r.push(FrameSpec { image: x.duplicate(), duration_ms: endpoint_ms, index: base });
    let mut k: u32 = 1;
    while k < frame_count
        invariant
            x.wf(),
            y.wf(),
            x@.same_size(y@),
            1 <= k <= frame_count,
            base + frame_count <= u64::MAX + 1,
            r@.len() == k,
            forall|j: int|
                0 <= j < k ==> (#[trigger] r@[j])@ == pair_frame_spec(
                    x@,
                    y@,
                    j as nat,
                    frame_count as nat,
                    endpoint_ms as nat,
                    step_ms as nat,
                    base as nat,
                ),
        decreases frame_count - k,
    {
        let w = step_weight(k, frame_count);
        let image = blend_images(x, y, w);
        r.push(FrameSpec { image, duration_ms: step_ms, index: base + k as u64 });
        k = k + 1;
    }
    r
}

/// The frames of the transition from `x` to `y`: `x` itself for
/// `endpoint_ms`, then `frame_count - 1` blends for `step_ms` each, their
/// weights falling with the step. `y` itself is not among them. Positions
/// count from 0.
pub fn interpolate(x: &Image, y: &Image, frame_count: u32, endpoint_ms: u64, step_ms: u64) -> (r:
    Vec<FrameSpec>)
    requires
        x.wf(),
        y.wf(),
        x@.same_size(y@),
        frame_count >= 1,
    ensures
        r@.len() == frame_count,
        forall|k: int|
            0 <= k < frame_count ==> (#[trigger] r@[k])@ == pair_frame_spec(
                x@,
                y@,
                k as nat,
                frame_count as nat,
                endpoint_ms as nat,
                step_ms as nat,
                0,
            ),
{
    pair_frames(x, y, frame_count, endpoint_ms, step_ms, 0)
}

/// The weights of a transition never grow from one step to a later one.
pub proof fn lemma_weights_non_increasing(k1: nat, k2: nat, n: nat)
    requires
        n >= 1,
        k1 <= k2,
    ensures
        step_weight_spec(k2, n) <= step_weight_spec(k1, n),
{
    assert(k1 * 255 <= k2 * 255) by (nonlinear_arith)
        requires
            k1 <= k2,
    ;
    lemma_div_is_ordered((k1 * 255) as int, (k2 * 255) as int, n as int);
}

/// A transition starts with its first image itself, at weight 255, and no
/// step of it reaches weight 0: every frame keeps some of the first image.
pub proof fn lemma_transition_starts_at_first_image(
    x: ImageView,
    y: ImageView,
    n: nat,
    endpoint_ms: nat,
    step_ms: nat,
    base: nat,
)
    requires
        n >= 1,
    ensures
        pair_frame_spec(x, y, 0, n, endpoint_ms, step_ms, base).image == x,
        step_weight_spec(0, n) == 255,
        forall|k: nat| k < n ==> 1 <= #[trigger] step_weight_spec(k, n) <= 255,
{
    assert forall|k: nat| k < n implies 1 <= #[trigger] step_weight_spec(k, n) <= 255 by {
        assert(0 <= ((k * 255) as int) / (n as int) <= 254) by (nonlinear_arith)
            requires
                k < n,
        ;
    }
}

/// The sidecar line of a frame: its label and its duration in decimal.
pub open spec fn frame_line(f: FrameView) -> Seq<char> {
    sidecar_entry(f.index, decimal(f.duration_ms))
}

/// The sidecar follows the loop frame by frame: for a loop over `images`
/// with `n` frames per transition, the sidecar is one line for each of the
/// `images.len() * n` frames of the loop, in the loop's order, each made of
/// that frame's position and duration.
pub proof fn lemma_sidecar_mirrors_schedule(
    images: Seq<ImageView>,
    n: nat,
    endpoint_ms: nat,
    step_ms: nat,
)
    requires
        n >= 1,
    ensures
        sidecar_json(images.len(), n, decimal(endpoint_ms), decimal(step_ms)) == sidecar_header()
            + joined(
            Seq::new(
                images.len() * n,
                |j: int| frame_line(scheduled_frame_spec(images, n, endpoint_ms, step_ms, j as nat)),
            ),
            ",\n"@,
        ) + sidecar_footer(),
{
    let lines = sidecar_lines(images.len() * n, n, decimal(endpoint_ms), decimal(step_ms));
    let frames = Seq::new(
        images.len() * n,
        |j: int| frame_line(scheduled_frame_spec(images, n, endpoint_ms, step_ms, j as nat)),
    );
    assert forall|j: int| 0 <= j < lines.len() implies lines[j] == frames[j] by {
        lemma_fundamental_div_mod(j, n as int);
        let i: int = j / (n as int);
        assert(i * n == n * i) by (nonlinear_arith);
    }
    assert(lines =~= frames);
}

/// Frame `i * n + k` of the loop is frame `k` of transition `i`.
proof fn lemma_scheduled_frame_of_transition(
    images: Seq<ImageView>,
    n: nat,
    endpoint_ms: nat,
    step_ms: nat,
    i: nat,
    k: nat,
)
    requires
        n >= 1,
        k < n,
    ensures
        scheduled_frame_spec(images, n, endpoint_ms, step_ms, i * n + k) == pair_frame_spec(
            images[i as int],
            images[((i + 1) as int) % (images.len() as int)],
            k,
            n,
            endpoint_ms,
            step_ms,
            i * n,
        ),
{
    lemma_fundamental_div_mod_converse((i * n + k) as int, n as int, i as int, k as int);
}

/// The frames of transition `i` of the loop over `images`: from image `i` to
/// the next one, the last going back to the first, at their positions in the
/// whole loop.
pub fn transition(images: &Vec<Image>, config: &ScheduleConfig, i: usize) -> (r: Vec<FrameSpec>)
    requires
        schedulable(images@),
        config.frame_count >= 1,
        images@.len() * config.frame_count <= usize::MAX,
        i < images@.len(),
    ensures
        r@.len() == config.frame_count,
        forall|k: int|
            0 <= k < config.frame_count ==> (#[trigger] r@[k])@ == scheduled_frame_spec(
                views_of(images@),
                config.frame_count as nat,
                config.endpoint_duration_ms as nat,
                config.step_duration_ms as nat,
                (i * config.frame_count + k) as nat,
            ),
{
    let n: usize = images.len();
    let fc: u32 = config.frame_count;
    let next: usize = if i + 1 == n {
        0
    } else {
        i + 1
    };
    assert(next as int == (i + 1) % (n as int)) by {
        if i + 1 < n {
            lemma_fundamental_div_mod_converse((i + 1) as int, n as int, 0, (i + 1) as int);
        } else {
            lemma_fundamental_div_mod_converse((i + 1) as int, n as int, 1, 0);
        }
    }
    assert(i * fc + fc <= n * fc) by (nonlinear_arith)
        requires
            i < n,
    ;
    let base: u64 = i as u64 * fc as u64;
    let x = &images[i];
    let y = &images[next];
    assert(images@[next as int]@.same_size(images@[0]@));
    assert(images@[i as int]@.same_size(images@[0]@));
    let r = pair_frames(
        x,
        y,
        fc,
        config.endpoint_duration_ms,
        config.step_duration_ms,
        base,
    );
    assert forall|k: int| 0 <= k < fc implies (#[trigger] r@[k])@ == scheduled_frame_spec(
        views_of(images@),
        fc as nat,
        config.endpoint_duration_ms as nat,
        config.step_duration_ms as nat,
        (i * fc + k) as nat,
    ) by {
        lemma_scheduled_frame_of_transition(
            views_of(images@),
            fc as nat,
            config.endpoint_duration_ms as nat,
            config.step_duration_ms as nat,
            i as nat,
            k as nat,
        );
    }
    r
}

/// All frames of the loop over `images`, in order: the transitions from each
/// image to the next, the last image going back to the first. There are
/// `frame_count` of them for each image.
pub fn schedule(images: &Vec<Image>, config: &ScheduleConfig) -> (r: Vec<FrameSpec>)
    requires
        schedulable(images@),
        config.frame_count >= 1,
        images@.len() * config.frame_count <= usize::MAX,
    ensures
        r@.len() == images@.len() * config.frame_count,
        forall|j: int|
            0 <= j < r@.len() ==> (#[trigger] r@[j])@ == scheduled_frame_spec(
                views_of(images@),
                config.frame_count as nat,
                config.endpoint_duration_ms as nat,
                config.step_duration_ms as nat,
                j as nat,
            ),
{
    let n: usize = images.len();
    let fc: u32 = config.frame_count;
    let mut r: Vec<FrameSpec> = Vec::new();
    let mut i: usize = 0;
    while i < n
        invariant
            n == images@.len(),
            fc == config.frame_count,
            schedulable(images@),
            fc >= 1,
            n * fc <= usize::MAX,
            i <= n,
            r@.len() == i * fc,
            forall|j: int|
                0 <= j < i * fc ==> (#[trigger] r@[j])@ == scheduled_frame_spec(
                    views_of(images@),
                    fc as nat,
                    config.endpoint_duration_ms as nat,
                    config.step_duration_ms as nat,
                    j as nat,
                ),
        decreases n - i,
    {
        let mut part = transition(images, config, i);
        let ghost before = r@;
        let ghost added = part@;
        r.append(&mut part);
        assert((i + 1) * fc == i * fc + fc) by (nonlinear_arith);
        assert forall|j: int| 0 <= j < (i + 1) * fc implies (#[trigger] r@[j])@
            == scheduled_frame_spec(
            views_of(images@),
            fc as nat,
            config.endpoint_duration_ms as nat,
            config.step_duration_ms as nat,
            j as nat,
        ) by {
            if j >= i * fc {
                let k = j - i * fc;
                assert(r@[j] == added[k]);
            }
        }
        i = i + 1;
    }
    r
}

} // verus!

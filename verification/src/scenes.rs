//! The 2D scenes, the order in which they are cycled, and the hue wheel's rings.

use vstd::prelude::*;

verus! {

/// A 2D color visualization.
#[derive(Debug, Clone, Copy, PartialEq, Eq, Structural)]
pub enum VisualizerScene {
    HueWheel,
    ColorPeaks,
    Gradients,
}

/// The scene index that follows `pos` among `len` scenes: the next one, or
/// the first after the last.
pub open spec fn next_position(pos: int, len: int) -> int {
    if pos + 1 < len { pos + 1 } else { 0 }
}

/// The scene index after `n` advances from `pos`.
pub open spec fn advanced(pos: int, len: int, n: nat) -> int
    decreases n,
{
    if n == 0 {
        pos
    } else {
        next_position(advanced(pos, len, (n - 1) as nat), len)
    }
}

/// The 2D scenes in cycling order and the one that is shown.
pub struct TwoDimSceneConfig {
    pos: usize,
    scenes: Vec<VisualizerScene>,
}

impl TwoDimSceneConfig {
    /// The index of the shown scene.
    pub closed spec fn position(&self) -> int {
        self.pos as int
    }

    /// The scenes in cycling order.
    pub closed spec fn scenes_view(&self) -> Seq<VisualizerScene> {
        self.scenes@
    }

    #[verifier::type_invariant]
    closed spec fn shown_scene_exists(&self) -> bool {
        self.pos < self.scenes@.len()
    }

    /// The hue wheel, then the color peaks, then the gradients; the hue wheel
    /// is shown.
    pub fn new() -> (r: TwoDimSceneConfig)
        ensures
            r.position() == 0,
            r.scenes_view() == seq![VisualizerScene::HueWheel, VisualizerScene::ColorPeaks, VisualizerScene::Gradients],
    {
        let mut scenes: Vec<VisualizerScene> = Vec::new();
        scenes.push(VisualizerScene::HueWheel);
        scenes.push(VisualizerScene::ColorPeaks);
        scenes.push(VisualizerScene::Gradients);
        TwoDimSceneConfig { pos: 0, scenes }
    }

    /// Shows the next scene, or the first one after the last.
    pub fn advance(&mut self)
        ensures
            final(self).scenes_view() == old(self).scenes_view(),
            final(self).position() == next_position(old(self).position(), old(self).scenes_view().len() as int),
    {
        proof { use_type_invariant(&*self); }
        let len: usize = self.scenes.len();
        self.pos = if self.pos + 1 < len { self.pos + 1 } else { 0 };
    }

    /// The index of the shown scene.
    pub fn pos(&self) -> (r: usize)
        ensures
            r == self.position(),
            r < self.scenes_view().len(),
    {
        proof { use_type_invariant(self); }
        self.pos
    }

    /// The shown scene.
    pub fn current_scene(&self) -> (r: VisualizerScene)
        ensures
            0 <= self.position() < self.scenes_view().len(),
            r == self.scenes_view()[self.position()],
    {
        proof { use_type_invariant(self); }
        self.scenes[self.pos]
    }
}

/// After `n` advances the shown index is the start index plus `n`, around
/// the number of scenes.
pub proof fn lemma_advanced_is_modular(pos: int, len: int, n: nat)
    requires
        0 <= pos < len,
    ensures
        advanced(pos, len, n) == (pos + n) % len,
    decreases n,
{
    if n == 0 {
        vstd::arithmetic::div_mod::lemma_small_mod(pos as nat, len as nat);
    } else {
        lemma_advanced_is_modular(pos, len, (n - 1) as nat);
        let x = (pos + n - 1) % len;
        vstd::arithmetic::div_mod::lemma_add_mod_noop_right(1, pos + n - 1, len);
        if x + 1 < len {
            vstd::arithmetic::div_mod::lemma_small_mod((x + 1) as nat, len as nat);
        } else {
            vstd::arithmetic::div_mod::lemma_mod_self_0(len);
        }
    }
}

/// Law: advancing visits every scene once and comes back to the shown scene
/// after as many advances as there are scenes.
pub proof fn lemma_advance_cycles(pos: int, len: int)
    requires
        0 <= pos < len,
    ensures
        advanced(pos, len, len as nat) == pos,
        forall|a: nat, b: nat| a < b < len ==> advanced(pos, len, a) != advanced(pos, len, b),
        forall|n: nat| 0 <= #[trigger] advanced(pos, len, n) < len,
{
    lemma_advanced_is_modular(pos, len, len as nat);
    vstd::arithmetic::div_mod::lemma_mod_add_multiples_vanish(pos, len);
    vstd::arithmetic::div_mod::lemma_small_mod(pos as nat, len as nat);
    assert forall|a: nat, b: nat| a < b < len implies advanced(pos, len, a) != advanced(pos, len, b) by {
        lemma_advanced_is_modular(pos, len, a);
        lemma_advanced_is_modular(pos, len, b);
        if pos + b < len {
            vstd::arithmetic::div_mod::lemma_small_mod((pos + a) as nat, len as nat);
            vstd::arithmetic::div_mod::lemma_small_mod((pos + b) as nat, len as nat);
        } else if pos + a >= len {
            vstd::arithmetic::div_mod::lemma_mod_add_multiples_vanish(pos + a - len, len);
            vstd::arithmetic::div_mod::lemma_mod_add_multiples_vanish(pos + b - len, len);
            vstd::arithmetic::div_mod::lemma_small_mod((pos + a - len) as nat, len as nat);
            vstd::arithmetic::div_mod::lemma_small_mod((pos + b - len) as nat, len as nat);
        } else {
            vstd::arithmetic::div_mod::lemma_small_mod((pos + a) as nat, len as nat);
            vstd::arithmetic::div_mod::lemma_mod_add_multiples_vanish(pos + b - len, len);
            vstd::arithmetic::div_mod::lemma_small_mod((pos + b - len) as nat, len as nat);
        }
    }
    assert forall|n: nat| 0 <= #[trigger] advanced(pos, len, n) < len by {
        lemma_advanced_is_modular(pos, len, n);
    }
}

} // verus!

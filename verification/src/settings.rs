//! Global render settings, and the native calls that switch them on and off.

use vstd::prelude::*;
use crate::call::{GlCall, GL_FILL, GL_FRONT_AND_BACK, GL_LINE};

verus! {

/// Numeric constant of the depth-test capability.
pub const GL_DEPTH_TEST: u32 = 0x0B71;

/// Numeric constant of the scissor-test capability.
pub const GL_SCISSOR_TEST: u32 = 0x0C11;

/// Numeric constant of the face-culling capability.
pub const GL_CULL_FACE: u32 = 0x0B44;

/// Numeric constant of the blending capability.
pub const GL_BLEND: u32 = 0x0BE2;

/// One switchable render setting.  All but `Wireframe` are native
/// capabilities; `Wireframe` is realised by changing the polygon mode.
#[derive(Clone, Copy, Debug, PartialEq, Eq, Structural)]
pub enum Setting {
    Depth,
    Scissor,
    Culling,
    Blend,
    Wireframe,
}

impl Setting {
    /// The call that switches this setting on.
    pub open spec fn spec_enable_call(self) -> GlCall {
        match self {
            Setting::Depth => GlCall::Enable { cap: GL_DEPTH_TEST },
            Setting::Scissor => GlCall::Enable { cap: GL_SCISSOR_TEST },
            Setting::Culling => GlCall::Enable { cap: GL_CULL_FACE },
            Setting::Blend => GlCall::Enable { cap: GL_BLEND },
            Setting::Wireframe => GlCall::PolygonMode { face: GL_FRONT_AND_BACK, mode: GL_LINE },
        }
    }

    /// The call that switches this setting off.
    pub open spec fn spec_disable_call(self) -> GlCall {
        match self {
            Setting::Depth => GlCall::Disable { cap: GL_DEPTH_TEST },
            Setting::Scissor => GlCall::Disable { cap: GL_SCISSOR_TEST },
            Setting::Culling => GlCall::Disable { cap: GL_CULL_FACE },
            Setting::Blend => GlCall::Disable { cap: GL_BLEND },
            Setting::Wireframe => GlCall::PolygonMode { face: GL_FRONT_AND_BACK, mode: GL_FILL },
        }
    }

    /// The call that switches this setting on.
    pub fn enable_call(&self) -> (r: GlCall)
        ensures
            r == self.spec_enable_call(),
    {
        match self {
            Setting::Depth => GlCall::Enable { cap: GL_DEPTH_TEST },
            Setting::Scissor => GlCall::Enable { cap: GL_SCISSOR_TEST },
            Setting::Culling => GlCall::Enable { cap: GL_CULL_FACE },
            Setting::Blend => GlCall::Enable { cap: GL_BLEND },
            Setting::Wireframe => GlCall::PolygonMode { face: GL_FRONT_AND_BACK, mode: GL_LINE },
        }
    }

    /// The call that switches this setting off.
    pub fn disable_call(&self) -> (r: GlCall)
        ensures
            r == self.spec_disable_call(),
    {
        match self {
            Setting::Depth => GlCall::Disable { cap: GL_DEPTH_TEST },
            Setting::Scissor => GlCall::Disable { cap: GL_SCISSOR_TEST },
            Setting::Culling => GlCall::Disable { cap: GL_CULL_FACE },
            Setting::Blend => GlCall::Disable { cap: GL_BLEND },
            Setting::Wireframe => GlCall::PolygonMode { face: GL_FRONT_AND_BACK, mode: GL_FILL },
        }
    }
}

/// The calls that switch each given setting on, in order.
pub open spec fn spec_enable_calls(s: Seq<Setting>) -> Seq<GlCall>
    decreases s.len(),
{
    if s.len() == 0 {
        Seq::empty()
    } else {
        seq![s[0].spec_enable_call()] + spec_enable_calls(s.drop_first())
    }
}

/// The calls that switch each given setting off, in order.
pub open spec fn spec_disable_calls(s: Seq<Setting>) -> Seq<GlCall>
    decreases s.len(),
{
    if s.len() == 0 {
        Seq::empty()
    } else {
        seq![s[0].spec_disable_call()] + spec_disable_calls(s.drop_first())
    }
}

/// The calls that switch every listed setting on, in order.
pub fn enable(s: &[Setting]) -> (r: Vec<GlCall>)
    ensures
        r@ == spec_enable_calls(s@),
{
    let mut r: Vec<GlCall> = Vec::new();
    let mut i: usize = 0;
    proof {
        assert(s@.skip(0) =~= s@);
        assert(r@ + spec_enable_calls(s@) =~= spec_enable_calls(s@));
    }
    while i < s.len()
        invariant
            i <= s@.len(),
            r@ + spec_enable_calls(s@.skip(i as int)) == spec_enable_calls(s@),
        decreases s@.len() - i,
    {
        proof {
            assert(s@.skip(i as int).drop_first() =~= s@.skip(i as int + 1));
        }
        r.push(s[i].enable_call());
        i = i + 1;
    }
    proof {
        assert(s@.skip(s@.len() as int) =~= Seq::<Setting>::empty());
        assert(r@ =~= spec_enable_calls(s@));
    }
    r
}

/// The calls that switch every listed setting off, in order.
pub fn disable(s: &[Setting]) -> (r: Vec<GlCall>)
    ensures
        r@ == spec_disable_calls(s@),
{
    let mut r: Vec<GlCall> = Vec::new();
    let mut i: usize = 0;
    proof {
        assert(s@.skip(0) =~= s@);
        assert(r@ + spec_disable_calls(s@) =~= spec_disable_calls(s@));
    }
    while i < s.len()
        invariant
            i <= s@.len(),
            r@ + spec_disable_calls(s@.skip(i as int)) == spec_disable_calls(s@),
        decreases s@.len() - i,
    {
        proof {
            assert(s@.skip(i as int).drop_first() =~= s@.skip(i as int + 1));
        }
        r.push(s[i].disable_call());
        i = i + 1;
    }
    proof {
        assert(s@.skip(s@.len() as int) =~= Seq::<Setting>::empty());
        assert(r@ =~= spec_disable_calls(s@));
    }
    r
}

} // verus!

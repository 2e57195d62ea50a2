//! The graphics state of a pbrt-v3 scene and the blocks that save and
//! restore it.
//!
//! The material and the current transform are held by the caller; here they
//! are handles (indices into the caller's lists of them), which attribute
//! blocks save and restore together and transform blocks save and restore
//! the transform of.
use vstd::prelude::*;

verus! {

/// The handles of the current material and transform.
#[derive(Clone, Copy, Debug, PartialEq, Eq, Structural)]
pub struct GraphicsIds {
    pub material: usize,
    pub transform: usize,
}

/// The current graphics state and what the open blocks saved.
pub struct GraphicsStacks {
    pub current: GraphicsIds,
    attribute_saves: Vec<GraphicsIds>,
    transform_saves: Vec<usize>,
}

pub struct GraphicsStacksView {
    pub current: GraphicsIds,
    pub attribute_saves: Seq<GraphicsIds>,
    pub transform_saves: Seq<usize>,
}

impl View for GraphicsStacks {
    type V = GraphicsStacksView;

    closed spec fn view(&self) -> GraphicsStacksView {
        GraphicsStacksView {
            current: self.current,
            attribute_saves: self.attribute_saves@,
            transform_saves: self.transform_saves@,
        }
    }
}

/// The state after an `AttributeBegin`.
pub open spec fn attribute_begin_spec(g: GraphicsStacksView) -> GraphicsStacksView {
    GraphicsStacksView { attribute_saves: g.attribute_saves.push(g.current), ..g }
}

/// The state after an `AttributeEnd`; one with nothing saved changes nothing.
pub open spec fn attribute_end_spec(g: GraphicsStacksView) -> GraphicsStacksView {
    if g.attribute_saves.len() == 0 {
        g
    } else {
        GraphicsStacksView {
            current: g.attribute_saves.last(),
            attribute_saves: g.attribute_saves.drop_last(),
            ..g
        }
    }
}

/// The state after a `TransformBegin`.
pub open spec fn transform_begin_spec(g: GraphicsStacksView) -> GraphicsStacksView {
    GraphicsStacksView { transform_saves: g.transform_saves.push(g.current.transform), ..g }
}

/// The state after a `TransformEnd`; one with nothing saved changes nothing.
pub open spec fn transform_end_spec(g: GraphicsStacksView) -> GraphicsStacksView {
    if g.transform_saves.len() == 0 {
        g
    } else {
        GraphicsStacksView {
            current: GraphicsIds { material: g.current.material, transform: g.transform_saves.last() },
            transform_saves: g.transform_saves.drop_last(),
            ..g
        }
    }
}

impl GraphicsStacks {
    /// No block open, with the given material and transform.
    pub fn new(current: GraphicsIds) -> (r: Self)
        ensures
            r@ == (GraphicsStacksView {
                current,
                attribute_saves: Seq::empty(),
                transform_saves: Seq::empty(),
            }),
    {
        Self { current, attribute_saves: Vec::new(), transform_saves: Vec::new() }
    }

    /// Makes `material` the current material.
    pub fn set_material(&mut self, material: usize)
        ensures
            final(self)@ == (GraphicsStacksView {
                current: GraphicsIds { material, transform: old(self)@.current.transform },
                ..old(self)@
            }),
    {
        self.current.material = material;
    }

    /// Makes `transform` the current transform.
    pub fn set_transform(&mut self, transform: usize)
        ensures
            final(self)@ == (GraphicsStacksView {
                current: GraphicsIds { material: old(self)@.current.material, transform },
                ..old(self)@
            }),
    {
        self.current.transform = transform;
    }

    pub fn attribute_begin(&mut self)
        ensures
            final(self)@ == attribute_begin_spec(old(self)@),
    {
        self.attribute_saves.push(self.current);
    }

    /// Restores what the innermost open attribute block saved; tells whether
    /// there was one.
    pub fn attribute_end(&mut self) -> (r: bool)
        ensures
            final(self)@ == attribute_end_spec(old(self)@),
            r == (old(self)@.attribute_saves.len() > 0),
    {
        match self.attribute_saves.pop() {
            Some(saved) => {
                self.current = saved;
                true
            },
            None => false,
        }
    }

    pub fn transform_begin(&mut self)
        ensures
            final(self)@ == transform_begin_spec(old(self)@),
    {
        self.transform_saves.push(self.current.transform);
    }

    /// Restores the transform that the innermost open transform block saved;
    /// tells whether there was one.
    pub fn transform_end(&mut self) -> (r: bool)
        ensures
            final(self)@ == transform_end_spec(old(self)@),
            r == (old(self)@.transform_saves.len() > 0),
    {
        match self.transform_saves.pop() {
            Some(saved) => {
                self.current.transform = saved;
                true
            },
            None => false,
        }
    }
}

/// An attribute block gives back the whole graphics state: whatever the
/// block changes, once its own blocks are closed, its `AttributeEnd` restores
/// the material and the transform from before its `AttributeBegin`, and what
/// was saved before it.
pub proof fn lemma_attribute_block_restores_state(g: GraphicsStacksView, inner: GraphicsStacksView)
    requires
        inner.attribute_saves == attribute_begin_spec(g).attribute_saves,
        inner.transform_saves == g.transform_saves,
    ensures
        attribute_end_spec(inner) == g,
{
    assert(inner.attribute_saves.drop_last() =~= g.attribute_saves);
}

/// A transform block gives back the transform from before it and keeps the
/// material that is current at its end.
pub proof fn lemma_transform_block_restores_transform(
    g: GraphicsStacksView,
    inner: GraphicsStacksView,
)
    requires
        inner.transform_saves == transform_begin_spec(g).transform_saves,
        inner.attribute_saves == g.attribute_saves,
    ensures
        transform_end_spec(inner) == (GraphicsStacksView {
            current: GraphicsIds { material: inner.current.material, transform: g.current.transform },
            ..g
        }),
{
    assert(inner.transform_saves.drop_last() =~= g.transform_saves);
}

} // verus!

//! The scene reader: it takes the events of a Mitsuba 2 scene file one after
//! another and gives the scene they describe.
use vstd::prelude::*;

use super::frames::{frame_start_exec, opt_nat, top_start_exec, Frame, FrameState, Start, TopStart};
use super::spec::{
    absorb_frame, absorb_top, end_element, finish_all, finish_frame, ignore_after_end,
    last_material, mitsuba_spec, pop_frame, run, start_element, step, FinishedView,
    FrameStateView, MachineView,
};
use super::types::{
    events_view, materials_view, opt_view, ops_view, Attribute, EmitterDesc, MaterialDesc,
    MitsubaError, MitsubaErrorView, MitsubaSceneDesc, SceneView, SensorDesc, ShapeDesc,
    TransformOp, XmlEvent, XmlEventView,
};

verus! {

/// What a frame gives once its end tag is read.
enum Finished {
    Ops(Vec<TransformOp>),
    Material(Option<String>, MaterialDesc),
    Sensor(SensorDesc),
    Emitter(EmitterDesc),
    Shape(String, String, Vec<TransformOp>),
}

impl View for Finished {
    type V = FinishedView;

    closed spec fn view(&self) -> FinishedView {
        match self {
            Finished::Ops(o) => FinishedView::Ops(ops_view(o@)),
            Finished::Material(id, m) => FinishedView::Material(opt_view(*id), m@),
            Finished::Sensor(s) => FinishedView::Sensor(s@),
            Finished::Emitter(e) => FinishedView::Emitter(e@),
            Finished::Shape(f, id, t) => FinishedView::Shape(f@, id@, ops_view(t@)),
        }
    }
}

fn finish_frame_exec(k: Frame) -> (r: Result<Finished, MitsubaError>)
    ensures
        match (r, finish_frame(k@)) {
            (Ok(f), Ok(g)) => f@ == g,
            (Err(e), Err(e2)) => e@ == e2,
            _ => false,
        },
{
    match k {
        Frame::Sensor { fov_axis, fov, transform } => Ok(
            Finished::Sensor(SensorDesc { fov_axis, fov, transform }),
        ),
        Frame::Transform { ops } => Ok(Finished::Ops(ops)),
        Frame::TwoSided { id, material } => Ok(Finished::Material(id, material)),
        Frame::Diffuse { id, reflectance } => Ok(
            Finished::Material(id, MaterialDesc::Matte(reflectance)),
        ),
        Frame::Dielectric { id, int_ior, ext_ior, specular_reflectance, specular_transmittance } => {
            Ok(
                Finished::Material(
                    id,
                    MaterialDesc::Glass {
                        int_ior,
                        ext_ior,
                        specular_reflectance,
                        specular_transmittance,
                    },
                ),
            )
        },
        Frame::Emitter(e) => Ok(Finished::Emitter(e)),
        Frame::Shape { filename, material_id, transform } => match filename {
            None => Err(MitsubaError::MeshWithNoPly),
            Some(f) => match material_id {
                None => Err(MitsubaError::MeshWithNoMaterial),
                Some(id) => Ok(Finished::Shape(f, id, transform)),
            },
        },
    }
}

fn absorb_frame_exec(parent: Frame, f: Finished) -> (r: Frame)
    ensures
        r@ == absorb_frame(parent@, f@),
{
    match (parent, f) {
        (Frame::Sensor { fov_axis, fov, .. }, Finished::Ops(o)) => Frame::Sensor {
            fov_axis,
            fov,
            transform: o,
        },
        (
            Frame::Emitter(EmitterDesc::Spot { intensity, cutoff_angle, beam_width, .. }),
            Finished::Ops(o),
        ) => Frame::Emitter(EmitterDesc::Spot { transform: o, intensity, cutoff_angle, beam_width }),
        (Frame::Shape { filename, material_id, .. }, Finished::Ops(o)) => Frame::Shape {
            filename,
            material_id,
            transform: o,
        },
        (Frame::TwoSided { id, .. }, Finished::Material(_, m)) => Frame::TwoSided { id, material: m },
        (p, _) => p,
    }
}

/// The index of the last material named `id`.
fn find_material(materials: &Vec<(String, MaterialDesc)>, id: &String) -> (r: Option<usize>)
    ensures
        match r {
            Some(k) => last_material(materials_view(materials@), id@) == Some(k as int),
            None => last_material(materials_view(materials@), id@) is None,
        },
{
    let ghost m = materials_view(materials@);
    let mut i = materials.len();
    proof {
        assert(m.take(i as int) =~= m);
    }
    while i > 0
        invariant
            i <= materials@.len(),
            m == materials_view(materials@),
            last_material(m, id@) == last_material(m.take(i as int), id@),
        decreases i,
    {
        proof {
            assert(m.take(i as int).drop_last() =~= m.take(i - 1));
            assert(m.take(i as int).last() == m[i - 1]);
        }
        if materials[i - 1].0 == *id {
            return Some(i - 1);
        }
        i -= 1;
    }
    None
}

fn absorb_top_exec(scene: &mut MitsubaSceneDesc, f: Finished) -> (r: Result<(), MitsubaError>)
    ensures
        match (r, absorb_top(old(scene)@, f@)) {
            (Ok(()), Ok(s)) => final(scene)@ == s,
            (Err(e), Err(e2)) => e@ == e2,
            _ => false,
        },
{
    let ghost s0 = scene@;
    match f {
        Finished::Material(id, m) => match id {
            None => Err(MitsubaError::MissingAttribute(Attribute::Id)),
            Some(i) => {
                let ghost entry = (i@, m@);
                scene.materials.push((i, m));
                proof {
                    assert(scene@.materials =~= s0.materials.push(entry));
                    assert(scene@.emitters =~= s0.emitters);
                    assert(scene@.shapes =~= s0.shapes);
                }
                Ok(())
            },
        },
        Finished::Sensor(s) => {
            scene.sensor = Some(s);
            proof {
                assert(scene@.materials =~= s0.materials);
                assert(scene@.emitters =~= s0.emitters);
                assert(scene@.shapes =~= s0.shapes);
            }
            Ok(())
        },
        Finished::Emitter(e) => {
            let ghost ev = e@;
            scene.emitters.push(e);
            proof {
                assert(scene@.materials =~= s0.materials);
                assert(scene@.emitters =~= s0.emitters.push(ev));
                assert(scene@.shapes =~= s0.shapes);
            }
            Ok(())
        },
        Finished::Shape(filename, id, transform) => match find_material(&scene.materials, &id) {
            None => Err(MitsubaError::UnknownMeshMaterial(id)),
            Some(k) => {
                let shape = ShapeDesc { filename, material: k, transform };
                let ghost sv = shape@;
                scene.shapes.push(shape);
                proof {
                    assert(scene@.materials =~= s0.materials);
                    assert(scene@.emitters =~= s0.emitters);
                    assert(scene@.shapes =~= s0.shapes.push(sv));
                }
                Ok(())
            },
        },
        Finished::Ops(_) => Ok(()),
    }
}

/// The reader's state.
struct Machine {
    scene: MitsubaSceneDesc,
    ignore: Option<usize>,
    frames: Vec<FrameState>,
}

impl View for Machine {
    type V = MachineView;

    closed spec fn view(&self) -> MachineView {
        MachineView {
            scene: self.scene@,
            ignore: opt_nat(self.ignore),
            frames: self.frames@.map_values(|f: FrameState| f@),
        }
    }
}

impl Machine {
    /// No depth that the reader counts is above `n`.
    spec fn bounded(&self, n: nat) -> bool {
        &&& (self.ignore matches Some(l) ==> l <= n)
        &&& forall|k: int|
            0 <= k < self.frames@.len() ==> #[trigger] self.frames@[k].level <= n && (
            self.frames@[k].ignore matches Some(l) ==> l <= n)
    }

    fn new() -> (r: Self)
        ensures
            r@ == (MachineView {
                scene: SceneView {
                    sensor: None,
                    materials: Seq::empty(),
                    emitters: Seq::empty(),
                    shapes: Seq::empty(),
                },
                ignore: None,
                frames: Seq::empty(),
            }),
            r.bounded(0),
    {
        let r = Machine {
            scene: MitsubaSceneDesc {
                sensor: None,
                materials: Vec::new(),
                emitters: Vec::new(),
                shapes: Vec::new(),
            },
            ignore: None,
            frames: Vec::new(),
        };
        proof {
            assert(r@.scene.materials =~= Seq::empty());
            assert(r@.scene.emitters =~= Seq::empty());
            assert(r@.scene.shapes =~= Seq::empty());
            assert(r@.frames =~= Seq::empty());
        }
        r
    }

    /// Finishes the frame `f`, which has been taken off the stack.
    fn pop_frame_exec(&mut self, f: Frame) -> (r: Result<(), MitsubaError>)
        ensures
            match (r, pop_frame(old(self)@.scene, old(self)@.ignore, old(self)@.frames, f@)) {
                (Ok(()), Ok(m)) => final(self)@ == m,
                (Err(e), Err(e2)) => e@ == e2,
                _ => false,
            },
            forall|n: nat| old(self).bounded(n) ==> final(self).bounded(n),
    {
        let ghost m0 = self@;
        match finish_frame_exec(f) {
            Err(e) => Err(e),
            Ok(fin) => {
                if self.frames.len() == 0 {
                    absorb_top_exec(&mut self.scene, fin)
                } else {
                    let p = self.frames.pop().unwrap();
                    proof {
                        assert(self@.frames =~= m0.frames.drop_last());
                    }
                    let kind = absorb_frame_exec(p.kind, fin);
                    self.frames.push(FrameState { kind, level: p.level, ignore: p.ignore });
                    proof {
                        assert(self@.frames =~= m0.frames.update(
                            m0.frames.len() - 1,
                            FrameStateView {
                                kind: absorb_frame(m0.frames.last().kind, fin@),
                                level: m0.frames.last().level,
                                ignore: m0.frames.last().ignore,
                            },
                        ));
                        assert forall|n: nat| old(self).bounded(n) implies self.bounded(n) by {
                            assert forall|k: int| 0 <= k < self.frames@.len() implies #[trigger] self.frames@[k].level
                                <= n && (self.frames@[k].ignore matches Some(l) ==> l <= n) by {
                                assert(old(self).frames@[k].level <= n);
                            }
                        }
                    }
                    Ok(())
                }
            },
        }
    }

    /// Reads one event.
    fn step_exec(&mut self, ev: &XmlEvent, Ghost(n): Ghost<nat>) -> (r: Result<(), MitsubaError>)
        requires
            old(self).bounded(n),
            n < usize::MAX,
        ensures
            match (r, step(old(self)@, ev@)) {
                (Ok(()), Ok(m)) => final(self)@ == m,
                (Err(e), Err(e2)) => e@ == e2,
                _ => false,
            },
            r is Ok ==> final(self).bounded(n + 1),
    {
        let ghost m0 = self@;
        match ev {
            XmlEvent::StartElement { name, attributes } => {
                if self.frames.len() == 0 {
                    match self.ignore {
                        Some(l) => {
                            self.ignore = Some(l + 1);
                            Ok(())
                        },
                        None => match top_start_exec(name, attributes) {
                            Err(e) => Err(e),
                            Ok(TopStart::Nothing) => Ok(()),
                            Ok(TopStart::Ignore) => {
                                self.ignore = Some(1);
                                Ok(())
                            },
                            Ok(TopStart::Push(k)) => {
                                self.frames.push(FrameState { kind: k, level: 0, ignore: None });
                                proof {
                                    assert(self@.frames =~= seq![self.frames@[0]@]);
                                }
                                Ok(())
                            },
                        },
                    }
                } else {
                    let f = self.frames.pop().unwrap();
                    proof {
                        assert(self@.frames =~= m0.frames.drop_last());
                        assert(old(self).frames@[old(self).frames@.len() - 1].level <= n);
                    }
                    let ghost last = m0.frames.len() - 1;
                    match f.ignore {
                        Some(l) => {
                            self.frames.push(
                                FrameState { kind: f.kind, level: f.level + 1, ignore: Some(l + 1) },
                            );
                            proof {
                                assert(self@.frames =~= m0.frames.update(
                                    last,
                                    FrameStateView {
                                        kind: m0.frames[last].kind,
                                        level: m0.frames[last].level + 1,
                                        ignore: Some((l + 1) as nat),
                                    },
                                ));
                                self.lemma_bounded_after(old(self), n);
                            }
                            Ok(())
                        },
                        None => {
                            let FrameState { kind, level, ignore: _ } = f;
                            match frame_start_exec(kind, name, attributes) {
                                Err(e) => Err(e),
                                Ok(Start::Update(k)) => {
                                    self.frames.push(
                                        FrameState { kind: k, level: level + 1, ignore: None },
                                    );
                                    proof {
                                        assert(self@.frames =~= m0.frames.update(
                                            last,
                                            FrameStateView {
                                                kind: self.frames@[last]@.kind,
                                                level: m0.frames[last].level + 1,
                                                ignore: None,
                                            },
                                        ));
                                        self.lemma_bounded_after(old(self), n);
                                    }
                                    Ok(())
                                },
                                Ok(Start::Ignore(k)) => {
                                    self.frames.push(
                                        FrameState { kind: k, level: level + 1, ignore: Some(1) },
                                    );
                                    proof {
                                        assert(self@.frames =~= m0.frames.update(
                                            last,
                                            FrameStateView {
                                                kind: m0.frames[last].kind,
                                                level: m0.frames[last].level + 1,
                                                ignore: Some(1),
                                            },
                                        ));
                                        self.lemma_bounded_after(old(self), n);
                                    }
                                    Ok(())
                                },
                                Ok(Start::Push(p, c)) => {
                                    self.frames.push(FrameState { kind: p, level, ignore: None });
                                    self.frames.push(FrameState { kind: c, level: 0, ignore: None });
                                    proof {
                                        assert(self@.frames =~= m0.frames.push(
                                            FrameStateView { kind: self.frames@[last + 1]@.kind, level: 0, ignore: None },
                                        ));
                                        self.lemma_bounded_after(old(self), n);
                                    }
                                    Ok(())
                                },
                            }
                        },
                    }
                }
            },
            XmlEvent::EndElement { .. } => {
                if self.frames.len() == 0 {
                    self.ignore = match self.ignore {
                        Some(l) => if l > 1 {
                            Some(l - 1)
                        } else {
                            None
                        },
                        None => None,
                    };
                    Ok(())
                } else {
                    let f = self.frames.pop().unwrap();
                    proof {
                        assert(self@.frames =~= m0.frames.drop_last());
                    }
                    if f.level == 0 {
                        proof {
                            assert forall|k: int| 0 <= k < self.frames@.len() implies #[trigger] self.frames@[k].level
                                <= n && (self.frames@[k].ignore matches Some(l) ==> l <= n) by {
                                assert(self.frames@[k] == old(self).frames@[k]);
                            }
                            assert(self.bounded(n));
                        }
                        let ghost mid = *self;
                        let r = self.pop_frame_exec(f.kind);
                        proof {
                            assert(mid.bounded(n) ==> self.bounded(n));
                        }
                        proof {
                            if r is Ok {
                                self.lemma_bounded_mono(n);
                            }
                        }
                        r
                    } else {
                        let ignore = match f.ignore {
                            Some(l) => if l > 1 {
                                Some(l - 1)
                            } else {
                                None
                            },
                            None => None,
                        };
                        self.frames.push(FrameState { kind: f.kind, level: f.level - 1, ignore });
                        proof {
                            let last = m0.frames.len() - 1;
                            assert(self@.frames =~= m0.frames.update(
                                last,
                                FrameStateView {
                                    kind: m0.frames[last].kind,
                                    level: (m0.frames[last].level - 1) as nat,
                                    ignore: ignore_after_end(m0.frames[last].ignore),
                                },
                            ));
                            self.lemma_bounded_after(old(self), n);
                        }
                        Ok(())
                    }
                }
            },
            XmlEvent::Characters(s) => Err(MitsubaError::UnexpectedCharacters(s.clone())),
            XmlEvent::CData(s) => Err(MitsubaError::UnexpectedCData(s.clone())),
            XmlEvent::ProcessingInstruction(s) => Err(
                MitsubaError::UnexpectedProcessingInstruction(s.clone()),
            ),
            XmlEvent::Whitespace => Ok(()),
            XmlEvent::Other => Ok(()),
        }
    }

    /// Depths change by at most one per event.
    proof fn lemma_bounded_after(&self, before: &Self, n: nat)
        requires
            before.bounded(n),
            self.ignore matches Some(l) ==> l <= n + 1,
            forall|k: int|
                0 <= k < self.frames@.len() ==> #[trigger] self.frames@[k].level <= n + 1 && (
                self.frames@[k].ignore matches Some(l) ==> l <= n + 1),
        ensures
            self.bounded(n + 1),
    {
    }

    proof fn lemma_bounded_mono(&self, n: nat)
        requires
            self.bounded(n),
        ensures
            self.bounded(n + 1),
    {
    }

    /// Finishes the frames still open, the innermost first.
    fn finish_all_exec(self) -> (r: Result<MitsubaSceneDesc, MitsubaError>)
        ensures
            match (r, finish_all(self@.scene, self@.ignore, self@.frames)) {
                (Ok(s), Ok(s2)) => s@ == s2,
                (Err(e), Err(e2)) => e@ == e2,
                _ => false,
            },
    {
        let ghost target = finish_all(self@.scene, self@.ignore, self@.frames);
        let mut m = self;
        let mut error: Option<MitsubaError> = None;
        while m.frames.len() > 0
            invariant_except_break
                error is None,
            invariant
                error is None ==> finish_all(m@.scene, m@.ignore, m@.frames) == target,
                error matches Some(e) ==> target == Err::<SceneView, MitsubaErrorView>(e@),
            ensures
                error is None ==> m@.frames.len() == 0,
            decreases m.frames@.len(),
        {
            let ghost m0 = m@;
            let f = m.frames.pop().unwrap();
            proof {
                assert(m@.frames =~= m0.frames.drop_last());
                assert(m0.frames[m0.frames.len() - 1] == f@);
            }
            match m.pop_frame_exec(f.kind) {
                Err(e) => {
                    error = Some(e);
                    break;
                },
                Ok(()) => {},
            }
        }
        match error {
            Some(e) => Err(e),
            None => Ok(m.scene),
        }
    }
}

/// Reads the scene that `events`, the events of a Mitsuba 2 scene file,
/// describe.
///
/// Top-level elements are `scene` (whose version must be 2.1.0), `default`,
/// `integrator` (skipped), `sensor`, `bsdf`, `emitter` and `shape`; the
/// children of each are read as Mitsuba 2 lays them out. Where the events end
/// with elements still open, those elements finish as if closed.
pub fn mitsuba_scene(events: &[XmlEvent]) -> (r: Result<MitsubaSceneDesc, MitsubaError>)
    ensures
        match (r, mitsuba_spec(events_view(events@))) {
            (Ok(s), Ok(s2)) => s@ == s2,
            (Err(e), Err(e2)) => e@ == e2,
            _ => false,
        },
{
    let ghost evs = events_view(events@);
    let mut m = Machine::new();
    let mut i: usize = 0;
    proof {
        assert(evs.skip(0) =~= evs);
    }
    while i < events.len()
        invariant
            i <= events@.len(),
            evs == events_view(events@),
            m.bounded(i as nat),
            run(m@, evs.skip(i as int)) == mitsuba_spec(evs),
        decreases events@.len() - i,
    {
        proof {
            assert(evs.skip(i as int)[0] == events@[i as int]@);
            assert(evs.skip(i as int).drop_first() =~= evs.skip(i + 1));
        }
        match m.step_exec(&events[i], Ghost(i as nat)) {
            Err(e) => {
                return Err(e);
            },
            Ok(()) => {},
        }
        i += 1;
    }
    m.finish_all_exec()
}

/// Checks that the camera's field of view is given along the horizontal
/// axis, the only one supported.
pub fn check_fov_axis(sensor: &SensorDesc) -> (r: Result<(), MitsubaError>)
    ensures
        r is Ok <==> sensor@.fov_axis == Some("x"@),
        r matches Err(e) ==> e@ == MitsubaErrorView::OnlyHorizontalFov,
{
    let horizontal = match &sensor.fov_axis {
        Some(a) => super::frames::eq_lit(a, "x"),
        None => false,
    };
    if horizontal {
        Ok(())
    } else {
        Err(MitsubaError::OnlyHorizontalFov)
    }
}

} // verus!

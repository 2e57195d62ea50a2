//! The checks and conversions that turn the contents of a PLY file into an
//! indexed triangle mesh.
use vstd::prelude::*;
use vstd::string::StringSliceAdditionalSpecFns;

use crate::math::normal::Normal;
use crate::math::point::Point3;

verus! {

/// One element of a PLY header: its name and the names of its properties, in
/// the order the header lists them.
pub struct PlyElement {
    pub name: String,
    pub properties: Vec<String>,
}

/// What an element of a PLY header says: its name and its property names.
pub struct PlyElementView {
    pub name: Seq<char>,
    pub properties: Seq<Seq<char>>,
}

/// The views of a list of names.
pub open spec fn names_view(names: Seq<String>) -> Seq<Seq<char>> {
    names.map_values(|n: String| n@)
}

impl View for PlyElement {
    type V = PlyElementView;

    open spec fn view(&self) -> PlyElementView {
        PlyElementView { name: self.name@, properties: names_view(self.properties@) }
    }
}

/// The parts of a PLY header that decide whether a mesh can be read from it:
/// its elements, in the order the header lists them.
pub struct PlyHeader {
    pub elements: Vec<PlyElement>,
}

impl View for PlyHeader {
    type V = Seq<PlyElementView>;

    open spec fn view(&self) -> Seq<PlyElementView> {
        self.elements@.map_values(|e: PlyElement| e@)
    }
}

/// A PLY header names each element once, and each property of an element
/// once.
pub open spec fn ply_header_wf(elements: Seq<PlyElementView>) -> bool {
    &&& forall|i: int, j: int|
        0 <= i < j < elements.len() ==> #[trigger] elements[i].name != #[trigger] elements[j].name
    &&& forall|i: int, j: int, k: int|
        0 <= i < elements.len() && 0 <= j < k < elements[i].properties.len()
            ==> #[trigger] elements[i].properties[j] != #[trigger] elements[i].properties[k]
}

/// The property names of the header's `vertex` and `face` elements, where
/// the header has them.
pub struct PlyContent {
    pub vertex: Option<Vec<String>>,
    pub face: Option<Vec<String>>,
}

/// The property names of the last element in `elements` named `name`.
pub open spec fn element_properties(elements: Seq<PlyElementView>, name: Seq<char>) -> Option<
    Seq<Seq<char>>,
>
    decreases elements.len(),
{
    if elements.len() == 0 {
        None
    } else if elements.last().name == name {
        Some(elements.last().properties)
    } else {
        element_properties(elements.drop_last(), name)
    }
}

/// Whether one of `properties` is named `name`.
pub open spec fn has_property(properties: Seq<Seq<char>>, name: Seq<char>) -> bool {
    properties.contains(name)
}

/// Whether a mesh can be read from a header with these elements: a `vertex`
/// element with `x`, `y` and `z` properties, and a `face` element with a
/// `vertex_index` or a `vertex_indices` property.
pub open spec fn ply_is_valid(elements: Seq<PlyElementView>) -> bool {
    &&& match element_properties(elements, "vertex"@) {
        Some(props) => has_property(props, "x"@) && has_property(props, "y"@) && has_property(
            props,
            "z"@,
        ),
        None => false,
    }
    &&& match element_properties(elements, "face"@) {
        Some(props) => has_property(props, "vertex_index"@) || has_property(
            props,
            "vertex_indices"@,
        ),
        None => false,
    }
}

impl PlyContent {
    /// Creates a `PlyContent` that has seen neither element.
    pub fn new() -> (r: Self)
        ensures
            r.vertex.is_none(),
            r.face.is_none(),
    {
        Self { vertex: None, face: None }
    }
}

/// Whether one of `properties` is named `name`.
fn contains_name(properties: &Vec<String>, name: &str) -> (r: bool)
    ensures
        r == has_property(names_view(properties@), name@),
{
    let key = name.to_owned();
    let ghost names = names_view(properties@);
    let mut i: usize = 0;
    while i < properties.len()
        invariant
            i <= properties@.len(),
            key@ == name@,
            names == names_view(properties@),
            forall|k: int| 0 <= k < i ==> #[trigger] names[k] != name@,
        decreases properties.len() - i,
    {
        if properties[i] == key {
            assert(names[i as int] == name@);
            return true;
        }
        i += 1;
    }
    false
}

/// A copy of a list of names.
fn copy_names(names: &Vec<String>) -> (r: Vec<String>)
    ensures
        r@ == names@,
{
    let mut r: Vec<String> = Vec::new();
    let mut i: usize = 0;
    while i < names.len()
        invariant
            i <= names@.len(),
            r@ == names@.take(i as int),
        decreases names.len() - i,
    {
        r.push(names[i].clone());
        proof {
            assert(names@.take(i + 1) =~= names@.take(i as int).push(names@[i as int]));
        }
        i += 1;
    }
    proof {
        assert(names@.take(names@.len() as int) =~= names@);
    }
    r
}

/// Checks that a mesh can be read from a PLY file with this header.
pub fn is_valid(header: &PlyHeader) -> (r: bool)
    ensures
        r == ply_is_valid(header@),
{
    let mut content = PlyContent::new();
    let vertex_key = "vertex".to_owned();
    let face_key = "face".to_owned();
    let mut i: usize = 0;
    while i < header.elements.len()
        invariant
            i <= header.elements@.len(),
            vertex_key@ == "vertex"@,
            face_key@ == "face"@,
            match content.vertex {
                Some(v) => element_properties(header@.take(i as int), "vertex"@) == Some(
                    names_view(v@),
                ),
                None => element_properties(header@.take(i as int), "vertex"@) is None,
            },
            match content.face {
                Some(v) => element_properties(header@.take(i as int), "face"@) == Some(
                    names_view(v@),
                ),
                None => element_properties(header@.take(i as int), "face"@) is None,
            },
        decreases header.elements.len() - i,
    {
        let element = &header.elements[i];
        proof {
            reveal_strlit("vertex");
            reveal_strlit("face");
            assert("vertex"@.len() != "face"@.len());
            assert(header@.take(i + 1).drop_last() =~= header@.take(i as int));
            assert(header@.take(i + 1).last() == element@);
        }
        if element.name == vertex_key {
            content.vertex = Some(copy_names(&element.properties));
        } else if element.name == face_key {
            content.face = Some(copy_names(&element.properties));
        }
        i += 1;
    }
    proof {
        assert(header@.take(header@.len() as int) =~= header@);
    }
    let mut valid = true;
    match &content.vertex {
        Some(props) => {
            if !contains_name(props, "x") {
                valid = false;
            }
            if !contains_name(props, "y") {
                valid = false;
            }
            if !contains_name(props, "z") {
                valid = false;
            }
        },
        None => {
            valid = false;
        },
    }
    match &content.face {
        Some(props) => {
            if !contains_name(props, "vertex_index") && !contains_name(props, "vertex_indices") {
                valid = false;
            }
        },
        None => {
            valid = false;
        },
    }
    valid
}

#[verifier::external_type_specification]
#[verifier::external_body]
pub struct ExPlyRsHeader(ply_rs::ply::Header);

/// A PLY header as read from the start of a file.
pub struct PlyHeaderRead<'a> {
    /// Its elements and their property names.
    pub header: PlyHeader,
    /// The header as `ply-rs` holds it, to read the payload with.
    pub raw: ply_rs::ply::Header,
    /// The bytes that follow the header.
    pub payload: &'a [u8],
}

/// The elements that `ply-rs` reads from a PLY header at the start of
/// `bytes`, or `None` where it refuses the header.
pub uninterp spec fn ply_header_of(bytes: Seq<u8>) -> Option<Seq<PlyElementView>>;

/// The elements of a header read, if one was.
pub open spec fn header_read_view(r: Option<PlyHeaderRead>) -> Option<Seq<PlyElementView>> {
    match r {
        Some(h) => Some(h.header@),
        None => None,
    }
}

/// Whether `rest` is what is left of `bytes` after some bytes at its start.
pub open spec fn is_suffix(rest: Seq<u8>, bytes: Seq<u8>) -> bool {
    rest.len() <= bytes.len() && rest == bytes.subrange(bytes.len() - rest.len(), bytes.len() as int)
}

pub const NEWLINE: u8 = 10;

pub const DIGIT_ZERO: u8 = 48;

pub const DIGIT_NINE: u8 = 57;

pub open spec fn is_digit(b: u8) -> bool {
    DIGIT_ZERO <= b <= DIGIT_NINE
}

/// The number that the run of decimal digits ending just before index `j`
/// reads as (0 where there is none).
pub open spec fn digit_run_value(bytes: Seq<u8>, j: int) -> nat
    decreases j,
{
    if j <= 0 || j > bytes.len() || !is_digit(bytes[j - 1]) {
        0
    } else {
        10 * digit_run_value(bytes, j - 1) + (bytes[j - 1] - DIGIT_ZERO) as nat
    }
}

/// Whether a line that starts with `end_header` starts at index `k`.
pub open spec fn end_header_line_at(bytes: Seq<u8>, k: int) -> bool {
    let pat = "end_header".spec_bytes();
    &&& 1 <= k
    &&& k + pat.len() <= bytes.len()
    &&& bytes[k - 1] == NEWLINE
    &&& bytes.subrange(k, k + pat.len()) == pat
}

/// The first index at or after `i` where a line starting with `end_header`
/// starts, or the length.
pub open spec fn header_end_from(bytes: Seq<u8>, i: int) -> int
    decreases bytes.len() - i,
{
    if i >= bytes.len() {
        bytes.len() as int
    } else if end_header_line_at(bytes, i) {
        i
    } else {
        header_end_from(bytes, i + 1)
    }
}

/// Whether some run of digits before the line that ends the header reads as
/// a number above `u64::MAX`, which `ply-rs` cannot read a count or a version
/// from.
pub open spec fn header_has_huge_number(bytes: Seq<u8>) -> bool {
    exists|j: int| 0 <= j <= header_end_from(bytes, 0) && #[trigger] digit_run_value(bytes, j) > u64::MAX
}

/// Where the line that ends the header starts, or the length.
fn find_header_end(bytes: &[u8]) -> (r: usize)
    ensures
        r == header_end_from(bytes@, 0),
{
    let pat = "end_header".as_bytes();
    let mut i: usize = 0;
    while i < bytes.len()
        invariant
            i <= bytes@.len(),
            pat@ == "end_header".spec_bytes(),
            header_end_from(bytes@, i as int) == header_end_from(bytes@, 0),
        decreases bytes.len() - i,
    {
        if i >= 1 && bytes[i - 1] == NEWLINE && pat.len() <= bytes.len() - i {
            let mut k: usize = 0;
            let mut same = true;
            while k < pat.len()
                invariant
                    k <= pat@.len(),
                    pat@.len() == pat.len(),
                    bytes@.len() == bytes.len(),
                    i + pat@.len() <= bytes@.len(),
                    same == (forall|m: int| 0 <= m < k ==> bytes@[i + m] == pat@[m]),
                decreases pat.len() - k,
            {
                assert(i + k < bytes@.len());
                if bytes[i + k] != pat[k] {
                    same = false;
                }
                k = k + 1;
            }
            proof {
                if same {
                    assert(bytes@.subrange(i as int, i + pat@.len()) =~= pat@);
                } else {
                    let m = choose|m: int| 0 <= m < pat@.len() && bytes@[i + m] != pat@[m];
                    assert(bytes@.subrange(i as int, i + pat@.len())[m] != pat@[m]);
                }
            }
            if same {
                return i;
            }
        }
        i = i + 1;
    }
    i
}

/// Whether some run of digits in the header reads as a number above
/// `u64::MAX`.
pub fn has_huge_number(bytes: &[u8]) -> (r: bool)
    ensures
        r == header_has_huge_number(bytes@),
{
    let end = find_header_end(bytes);
    proof {
        lemma_header_end_bound(bytes@, 0);
    }
    let mut cur: u64 = 0;
    let mut j: usize = 0;
    while j < end
        invariant
            j <= end <= bytes@.len(),
            end == header_end_from(bytes@, 0),
            cur == digit_run_value(bytes@, j as int),
            forall|k: int| 0 <= k <= j ==> #[trigger] digit_run_value(bytes@, k) <= u64::MAX,
        decreases end - j,
    {
        let b = bytes[j];
        if DIGIT_ZERO <= b && b <= DIGIT_NINE {
            let d = (b - DIGIT_ZERO) as u64;
            assert(digit_run_value(bytes@, j + 1) == 10 * cur + d);
            if cur > (u64::MAX - d) / 10 {
                assert(10 * cur + d > u64::MAX) by (nonlinear_arith)
                    requires
                        cur > (u64::MAX - d) / 10,
                        d <= 9,
                ;
                assert(digit_run_value(bytes@, j + 1) > u64::MAX);
                return true;
            }
            assert(10 * cur + d <= u64::MAX) by (nonlinear_arith)
                requires
                    cur <= (u64::MAX - d) / 10,
                    d <= 9,
            ;
            cur = cur * 10 + d;
        } else {
            cur = 0;
        }
        j = j + 1;
    }
    false
}

proof fn lemma_header_end_bound(bytes: Seq<u8>, i: int)
    requires
        0 <= i,
    ensures
        header_end_from(bytes, i) <= bytes.len(),
    decreases bytes.len() - i,
{
    if i < bytes.len() && !end_header_line_at(bytes, i) {
        lemma_header_end_bound(bytes, i + 1);
    }
}

/// Reads the PLY header at the start of `bytes` with
/// `ply_rs::parser::Parser::<DefaultElement>::read_header`, reading from the
/// slice as a `BufRead`. `ply-rs` unwraps the parse of each count and
/// version as a `u64`, so a header with a larger number is left out. Claimed
/// of it: its elements are `ply_header_of` the
/// bytes (their names and property names, in the order `ply-rs` keeps them);
/// `ply-rs` keeps elements, and the properties of each, in maps keyed by
/// name, so no name occurs twice; the payload is what the reader left of the
/// slice. What `ply_header_of` is on given bytes is not stated.
#[verifier::external_body]
pub(crate) fn read_ply_header<'a>(bytes: &'a [u8]) -> (r: Option<PlyHeaderRead<'a>>)
    requires
        !header_has_huge_number(bytes@),
    ensures
        header_read_view(r) == ply_header_of(bytes@),
        r matches Some(h) ==> ply_header_wf(h.header@) && is_suffix(h.payload@, bytes@),
{
    let mut rest: &[u8] = bytes;
    let parser = ply_rs::parser::Parser::<ply_rs::ply::DefaultElement>::new();
    match parser.read_header(&mut rest) {
        Ok(raw) => {
            let elements = raw.elements.iter().map(|(name, e)| PlyElement {
                name: name.clone(),
                properties: e.properties.keys().cloned().collect(),
            }).collect();
            Some(PlyHeaderRead { header: PlyHeader { elements }, raw, payload: rest })
        },
        Err(_) => None,
    }
}

/// Why no mesh can be read from a PLY file.
#[derive(Debug)]
pub enum PlyError {
    /// The header could not be read, or holds a number too large to read.
    InvalidHeader,
    /// The header lacks the vertex positions or the face indices.
    UnsupportedContent,
}

/// Reads the header at the start of the bytes of a PLY file and checks that a
/// mesh can be read from the file.
pub fn check_ply_header<'a>(bytes: &'a [u8]) -> (r: Result<PlyHeaderRead<'a>, PlyError>)
    ensures
        r is Ok <==> (!header_has_huge_number(bytes@) && (ply_header_of(bytes@) matches Some(els)
            && ply_is_valid(els))),
        (r matches Err(PlyError::InvalidHeader)) <==> (header_has_huge_number(bytes@)
            || ply_header_of(bytes@) is None),
        r matches Ok(h) ==> {
            &&& ply_header_of(bytes@) == Some(h.header@)
            &&& ply_header_wf(h.header@)
            &&& is_suffix(h.payload@, bytes@)
        },
{
    if has_huge_number(bytes) {
        return Err(PlyError::InvalidHeader);
    }
    match read_ply_header(bytes) {
        None => Err(PlyError::InvalidHeader),
        Some(h) => {
            if is_valid(&h.header) {
                Ok(h)
            } else {
                Err(PlyError::UnsupportedContent)
            }
        },
    }
}

/// The triangles of the fan of `face` from its first corner, starting with the
/// one on corners `k` and `k + 1`, as a flat list of corner indices.
pub open spec fn fan_from(face: Seq<usize>, k: int) -> Seq<usize>
    decreases face.len() - k,
{
    if k < 1 || k + 1 >= face.len() {
        Seq::empty()
    } else {
        seq![face[0], face[k], face[k + 1]] + fan_from(face, k + 1)
    }
}

/// The triangles of the fan of every face in `faces`, in order, as a flat
/// list of corner indices.
pub open spec fn fan_indices(faces: Seq<Vec<usize>>) -> Seq<usize>
    decreases faces.len(),
{
    if faces.len() == 0 {
        Seq::empty()
    } else {
        fan_indices(faces.drop_last()) + fan_from(faces.last()@, 1)
    }
}

/// A face with `n` corners, `n` at least 2, fans out into `n - 2` triangles.
pub proof fn lemma_fan_len(face: Seq<usize>, k: int)
    requires
        1 <= k,
    ensures
        fan_from(face, k).len() == if k + 1 < face.len() {
            3 * (face.len() - k - 1)
        } else {
            0
        },
    decreases face.len() - k,
{
    if k + 1 < face.len() {
        lemma_fan_len(face, k + 1);
    }
}

/// Every index in the fan of a face is one of the face's corners, so it is
/// below `bound` when all of the face's corners are.
pub proof fn lemma_fan_bounded(face: Seq<usize>, k: int, bound: int)
    requires
        1 <= k,
        forall|j: int| 0 <= j < face.len() ==> #[trigger] face[j] < bound,
    ensures
        forall|j: int| 0 <= j < fan_from(face, k).len() ==> #[trigger] fan_from(face, k)[j] < bound,
    decreases face.len() - k,
{
    if k + 1 < face.len() {
        lemma_fan_bounded(face, k + 1, bound);
        let rest = fan_from(face, k + 1);
        let all = fan_from(face, k);
        assert forall|j: int| 0 <= j < all.len() implies #[trigger] all[j] < bound by {
            if j >= 3 {
                assert(all[j] == rest[j - 3]);
            }
        }
    }
}

/// Every index of the triangles made from `faces` is a corner of one of the
/// faces, so all of them are below `bound` when all corners are.
pub proof fn lemma_fan_indices_bounded(faces: Seq<Vec<usize>>, bound: int)
    requires
        forall|i: int, j: int| 0 <= i < faces.len() && 0 <= j < faces[i]@.len() ==> #[trigger] faces[i]@[j] < bound,
    ensures
        forall|k: int| 0 <= k < fan_indices(faces).len() ==> #[trigger] fan_indices(faces)[k] < bound,
    decreases faces.len(),
{
    if faces.len() > 0 {
        let init = faces.drop_last();
        assert forall|i: int, j: int| 0 <= i < init.len() && 0 <= j < init[i]@.len() implies #[trigger] init[i]@[j] < bound by {
            assert(init[i] == faces[i]);
        }
        lemma_fan_indices_bounded(init, bound);
        let last = faces.last()@;
        assert forall|j: int| 0 <= j < last.len() implies #[trigger] last[j] < bound by {
            assert(faces[faces.len() - 1]@[j] < bound);
        }
        lemma_fan_bounded(last, 1, bound);
        let a = fan_indices(init);
        let b = fan_from(last, 1);
        assert forall|k: int| 0 <= k < (a + b).len() implies #[trigger] (a + b)[k] < bound by {
            if k >= a.len() {
                assert((a + b)[k] == b[k - a.len()]);
            }
        }
    }
}

/// Converts polygonal faces into an index buffer of triangles, fanning each
/// face out from its first corner.
pub fn triangulate_faces(faces: &Vec<Vec<usize>>) -> (r: Vec<usize>)
    requires
        forall|i: int| 0 <= i < faces@.len() ==> #[trigger] faces@[i]@.len() > 0,
    ensures
        r@ == fan_indices(faces@),
{
    let mut indices: Vec<usize> = Vec::new();
    let mut i: usize = 0;
    while i < faces.len()
        invariant
            i <= faces@.len(),
            indices@ == fan_indices(faces@.take(i as int)),
            forall|j: int| 0 <= j < faces@.len() ==> #[trigger] faces@[j]@.len() > 0,
        decreases faces.len() - i,
    {
        let face = &faces[i];
        let ghost before = indices@;
        proof {
            assert(faces@.take(i + 1).drop_last() =~= faces@.take(i as int));
        }
        let v0 = face[0];
        let mut k: usize = 1;
        while k < face.len() - 1
            invariant
                1 <= k <= face@.len(),
                face@.len() > 0,
                v0 == face@[0],
                indices@ + fan_from(face@, k as int) == before + fan_from(face@, 1),
            decreases face.len() - k,
        {
            let ghost prev = indices@;
            indices.push(v0);
            indices.push(face[k]);
            indices.push(face[k + 1]);
            proof {
                assert(indices@ =~= prev + seq![face@[0], face@[k as int], face@[k + 1]]);
                assert(prev + fan_from(face@, k as int) =~= indices@ + fan_from(
                    face@,
                    k + 1,
                ));
            }
            k += 1;
        }
        proof {
            assert(fan_from(face@, k as int) =~= Seq::<usize>::empty());
            assert(indices@ =~= indices@ + fan_from(face@, k as int));
        }
        i += 1;
    }
    proof {
        assert(faces@.take(faces@.len() as int) =~= faces@);
    }
    indices
}

/// The values a face's index property can hold.
pub enum IndexList {
    /// A list of signed indices.
    Int(Vec<i32>),
    /// A list of unsigned indices.
    UInt(Vec<u32>),
    /// A property of any other kind.
    Other,
}

/// Whether `key` names the index list of a face.
pub open spec fn is_index_property(key: Seq<char>) -> bool {
    key == "vertex_index"@ || key == "vertex_indices"@
}

/// A polygonal face of a PLY mesh.
pub struct Face {
    pub indices: Vec<usize>,
}

impl Face {
    /// Creates a face with no corners.
    pub fn new() -> (r: Self)
        ensures
            r.indices@.len() == 0,
    {
        Self { indices: Vec::new() }
    }

    /// Sets the face's corners from its index-list property. Other properties
    /// are ignored.
    pub fn set_property(&mut self, key: &str, property: IndexList)
        requires
            is_index_property(key@) ==> match property {
                IndexList::Int(v) => forall|k: int| 0 <= k < v@.len() ==> #[trigger] v@[k] >= 0,
                _ => true,
            },
        ensures
            is_index_property(key@) ==> match property {
                IndexList::Int(v) => final(self).indices@.len() == v@.len() && forall|k: int|
                    0 <= k < v@.len() ==> #[trigger] final(self).indices@[k] == v@[k],
                IndexList::UInt(v) => final(self).indices@.len() == v@.len() && forall|k: int|
                    0 <= k < v@.len() ==> #[trigger] final(self).indices@[k] == v@[k],
                IndexList::Other => final(self).indices@ == old(self).indices@,
            },
            !is_index_property(key@) ==> final(self).indices@ == old(self).indices@,
    {
        let k = key.to_owned();
        if k == "vertex_index".to_owned() || k == "vertex_indices".to_owned() {
            match property {
                IndexList::Int(v) => {
                    let mut indices: Vec<usize> = Vec::new();
                    let mut j: usize = 0;
                    while j < v.len()
                        invariant
                            j <= v@.len(),
                            indices@.len() == j,
                            forall|m: int| 0 <= m < v@.len() ==> #[trigger] v@[m] >= 0,
                            forall|m: int| 0 <= m < j ==> #[trigger] indices@[m] == v@[m],
                        decreases v.len() - j,
                    {
                        indices.push(v[j] as usize);
                        j += 1;
                    }
                    self.indices = indices;
                },
                IndexList::UInt(v) => {
                    let mut indices: Vec<usize> = Vec::new();
                    let mut j: usize = 0;
                    while j < v.len()
                        invariant
                            j <= v@.len(),
                            indices@.len() == j,
                            forall|m: int| 0 <= m < j ==> #[trigger] indices@[m] == v@[m],
                        decreases v.len() - j,
                    {
                        indices.push(v[j] as usize);
                        j += 1;
                    }
                    self.indices = indices;
                },
                IndexList::Other => {},
            }
        }
    }
}

/// A vertex of a PLY mesh: its position and, where the file gives one, its
/// normal. `F` is the type of the components.
pub struct Vertex<F> {
    pub point: Point3<F>,
    pub normal: Option<Normal<F>>,
}

impl<F: Copy> Vertex<F> {
    /// Creates a vertex at `origin` with no normal.
    pub fn new(origin: Point3<F>) -> (r: Self)
        ensures
            r.point == origin,
            r.normal.is_none(),
    {
        Self { point: origin, normal: None }
    }

    /// Sets the component of the position or the normal that `key` names.
    /// The normal is started by its `nx` component, with its other two
    /// components set to `zero`. Other properties are ignored.
    pub fn set_property(&mut self, key: &str, value: F, zero: F)
        requires
            key@ == "ny"@ || key@ == "nz"@ ==> old(self).normal.is_some(),
        ensures
            final(self).point == (if key@ == "x"@ {
                Point3 { x: value, ..old(self).point }
            } else if key@ == "y"@ {
                Point3 { y: value, ..old(self).point }
            } else if key@ == "z"@ {
                Point3 { z: value, ..old(self).point }
            } else {
                old(self).point
            }),
            final(self).normal == (if key@ == "nx"@ {
                Some(Normal { x: value, y: zero, z: zero })
            } else if key@ == "ny"@ {
                Some(Normal { y: value, ..old(self).normal.unwrap() })
            } else if key@ == "nz"@ {
                Some(Normal { z: value, ..old(self).normal.unwrap() })
            } else {
                old(self).normal
            }),
    {
        proof {
            reveal_strlit("x");
            reveal_strlit("y");
            reveal_strlit("z");
            reveal_strlit("nx");
            reveal_strlit("ny");
            reveal_strlit("nz");
            assert("x"@.len() == 1 && "y"@.len() == 1 && "z"@.len() == 1);
            assert("nx"@.len() == 2 && "ny"@.len() == 2 && "nz"@.len() == 2);
        }
        let k = key.to_owned();
        if k == "x".to_owned() {
            self.point.x = value;
        } else if k == "y".to_owned() {
            self.point.y = value;
        } else if k == "z".to_owned() {
            self.point.z = value;
        } else if k == "nx".to_owned() {
            self.normal = Some(Normal::new(zero, zero, zero));
            let mut n = self.normal.unwrap();
            n.x = value;
            self.normal = Some(n);
        } else if k == "ny".to_owned() {
            let mut n = self.normal.unwrap();
            n.y = value;
            self.normal = Some(n);
        } else if k == "nz".to_owned() {
            let mut n = self.normal.unwrap();
            n.z = value;
            self.normal = Some(n);
        }
    }
}

} // verus!

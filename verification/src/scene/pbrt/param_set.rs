//! The named, typed parameter lists that follow a scene directive.
use vstd::prelude::*;

use crate::math::normal::Normal;
use crate::math::point::{Point2, Point3};
use crate::math::spectrum::Spectrum;

verus! {

/// One named parameter with its list of values.
#[derive(Clone)]
pub struct ParamSetItem<T> {
    /// The parameter's name.
    pub name: String,
    /// The parameter's values, in the order they were given.
    pub values: Vec<T>,
}

/// The single value of the first parameter in `params` that is named `name`
/// and has exactly one value, if there is such a parameter.
pub open spec fn first_single<T>(name: Seq<char>, params: Seq<ParamSetItem<T>>) -> Option<T>
    decreases params.len(),
{
    if params.len() == 0 {
        None
    } else if params[0].name@ == name && params[0].values@.len() == 1 {
        Some(params[0].values@[0])
    } else {
        first_single(name, params.drop_first())
    }
}

/// The values of the first parameter in `params` that is named `name`, if
/// there is such a parameter.
pub open spec fn first_values<T>(name: Seq<char>, params: Seq<ParamSetItem<T>>) -> Option<Seq<T>>
    decreases params.len(),
{
    if params.len() == 0 {
        None
    } else if params[0].name@ == name {
        Some(params[0].values@)
    } else {
        first_values(name, params.drop_first())
    }
}

/// The single value of the first single-valued parameter named `name`, or `default`.
pub open spec fn param_value<T>(name: Seq<char>, params: Seq<ParamSetItem<T>>, default: T) -> T {
    match first_single(name, params) {
        Some(v) => v,
        None => default,
    }
}

/// The values of the first parameter named `name`, or `default`.
pub open spec fn param_values<T>(name: Seq<char>, params: Seq<ParamSetItem<T>>, default: Seq<T>) -> Seq<T> {
    match first_values(name, params) {
        Some(v) => v,
        None => default,
    }
}

/// Parameters already in a list shadow those added after them: after adding
/// `item`, the first single-valued parameter named `name` is the one found
/// before, or else `item` when it is named `name` and has exactly one value.
pub proof fn lemma_first_single_push<T>(name: Seq<char>, params: Seq<ParamSetItem<T>>, item: ParamSetItem<T>)
    ensures
        first_single(name, params.push(item)) == match first_single(name, params) {
            Some(v) => Some(v),
            None => if item.name@ == name && item.values@.len() == 1 {
                Some(item.values@[0])
            } else {
                None
            },
        },
    decreases params.len(),
{
    let pushed = params.push(item);
    if params.len() == 0 {
        assert(pushed.drop_first() =~= Seq::<ParamSetItem<T>>::empty());
        assert(pushed[0] == item);
    } else {
        assert(pushed.drop_first() =~= params.drop_first().push(item));
        assert(pushed[0] == params[0]);
        lemma_first_single_push(name, params.drop_first(), item);
    }
}

/// The same for lists of values: after adding `item`, the first parameter
/// named `name` is the one found before, or else `item` when it is named `name`.
pub proof fn lemma_first_values_push<T>(name: Seq<char>, params: Seq<ParamSetItem<T>>, item: ParamSetItem<T>)
    ensures
        first_values(name, params.push(item)) == match first_values(name, params) {
            Some(v) => Some(v),
            None => if item.name@ == name {
                Some(item.values@)
            } else {
                None
            },
        },
    decreases params.len(),
{
    let pushed = params.push(item);
    if params.len() == 0 {
        assert(pushed.drop_first() =~= Seq::<ParamSetItem<T>>::empty());
        assert(pushed[0] == item);
    } else {
        assert(pushed.drop_first() =~= params.drop_first().push(item));
        assert(pushed[0] == params[0]);
        lemma_first_values_push(name, params.drop_first(), item);
    }
}

proof fn lemma_skip_one<T>(params: Seq<ParamSetItem<T>>, i: int)
    requires
        0 <= i < params.len(),
    ensures
        params.subrange(i + 1, params.len() as int) =~= params.subrange(i, params.len() as int).drop_first(),
{
}

/// Finds the single value of the first parameter named `name` that has exactly
/// one value, or returns `default`.
pub fn find_param_value<T: Copy>(name: &str, params: &[ParamSetItem<T>], default: T) -> (r: T)
    ensures
        r == param_value(name@, params@, default),
{
    let key = name.to_owned();
    let mut i: usize = 0;
    proof {
        assert(params@.subrange(0, params@.len() as int) =~= params@);
    }
    while i < params.len()
        invariant
            i <= params@.len(),
            key@ == name@,
            first_single(name@, params@.subrange(i as int, params@.len() as int)) == first_single(
                name@,
                params@,
            ),
        decreases params.len() - i,
    {
        let param = &params[i];
        if param.name == key && param.values.len() == 1 {
            return param.values[0];
        }
        proof {
            lemma_skip_one(params@, i as int);
        }
        i += 1;
    }
    default
}

/// Finds the values of the first parameter named `name`, or returns `default`.
pub fn find_param_values<'a, T>(name: &str, params: &'a [ParamSetItem<T>], default: &'a [T]) -> (r: &'a [T])
    ensures
        r@ == param_values(name@, params@, default@),
{
    let key = name.to_owned();
    let mut i: usize = 0;
    proof {
        assert(params@.subrange(0, params@.len() as int) =~= params@);
    }
    while i < params.len()
        invariant
            i <= params@.len(),
            key@ == name@,
            first_values(name@, params@.subrange(i as int, params@.len() as int)) == first_values(
                name@,
                params@,
            ),
        decreases params.len() - i,
    {
        let param = &params[i];
        if param.name == key {
            return param.values.as_slice();
        }
        proof {
            lemma_skip_one(params@, i as int);
        }
        i += 1;
    }
    default
}

/// What a [`ParamSet`] holds: one list of parameters per value type.
pub struct ParamSetView<F> {
    pub bools: Seq<ParamSetItem<bool>>,
    pub floats: Seq<ParamSetItem<F>>,
    pub integers: Seq<ParamSetItem<i32>>,
    pub points: Seq<ParamSetItem<Point3<F>>>,
    pub normals: Seq<ParamSetItem<Normal<F>>>,
    pub spectra: Seq<ParamSetItem<Spectrum<F>>>,
    pub strings: Seq<ParamSetItem<String>>,
    pub uvs: Seq<ParamSetItem<Point2<F>>>,
}

/// The parameters of one scene directive, by value type. `F` is the type of
/// the real-valued components.
#[derive(Clone)]
pub struct ParamSet<F> {
    bools: Vec<ParamSetItem<bool>>,
    floats: Vec<ParamSetItem<F>>,
    integers: Vec<ParamSetItem<i32>>,
    points: Vec<ParamSetItem<Point3<F>>>,
    normals: Vec<ParamSetItem<Normal<F>>>,
    spectra: Vec<ParamSetItem<Spectrum<F>>>,
    strings: Vec<ParamSetItem<String>>,
    uvs: Vec<ParamSetItem<Point2<F>>>,
}

impl<F> View for ParamSet<F> {
    type V = ParamSetView<F>;

    closed spec fn view(&self) -> ParamSetView<F> {
        ParamSetView {
            bools: self.bools@,
            floats: self.floats@,
            integers: self.integers@,
            points: self.points@,
            normals: self.normals@,
            spectra: self.spectra@,
            strings: self.strings@,
            uvs: self.uvs@,
        }
    }
}

impl<F> Default for ParamSet<F> {
    fn default() -> (r: Self)
        ensures
            r@.bools.len() == 0,
            r@.floats.len() == 0,
            r@.integers.len() == 0,
            r@.points.len() == 0,
            r@.normals.len() == 0,
            r@.spectra.len() == 0,
            r@.strings.len() == 0,
            r@.uvs.len() == 0,
    {
        Self {
            bools: Vec::new(),
            floats: Vec::new(),
            integers: Vec::new(),
            points: Vec::new(),
            normals: Vec::new(),
            spectra: Vec::new(),
            strings: Vec::new(),
            uvs: Vec::new(),
        }
    }
}

impl<F: Copy> ParamSet<F> {
    /// Adds a real-valued parameter.
    pub fn add_f32(&mut self, name: String, values: Vec<F>)
        ensures
            final(self)@ == (ParamSetView {
                floats: old(self)@.floats.push(ParamSetItem { name, values }),
                ..old(self)@
            }),
    {
        self.floats.push(ParamSetItem { name, values });
    }

    /// Adds an integer parameter.
    pub fn add_i32(&mut self, name: String, values: Vec<i32>)
        ensures
            final(self)@ == (ParamSetView {
                integers: old(self)@.integers.push(ParamSetItem { name, values }),
                ..old(self)@
            }),
    {
        self.integers.push(ParamSetItem { name, values });
    }

    /// Adds a spectrum parameter.
    pub fn add_spectrum(&mut self, name: String, values: Vec<Spectrum<F>>)
        ensures
            final(self)@ == (ParamSetView {
                spectra: old(self)@.spectra.push(ParamSetItem { name, values }),
                ..old(self)@
            }),
    {
        self.spectra.push(ParamSetItem { name, values });
    }

    /// Adds a point parameter.
    pub fn add_point(&mut self, name: String, values: Vec<Point3<F>>)
        ensures
            final(self)@ == (ParamSetView {
                points: old(self)@.points.push(ParamSetItem { name, values }),
                ..old(self)@
            }),
    {
        self.points.push(ParamSetItem { name, values });
    }

    /// Adds a normal parameter.
    pub fn add_normal(&mut self, name: String, values: Vec<Normal<F>>)
        ensures
            final(self)@ == (ParamSetView {
                normals: old(self)@.normals.push(ParamSetItem { name, values }),
                ..old(self)@
            }),
    {
        self.normals.push(ParamSetItem { name, values });
    }

    /// Adds a string parameter.
    pub fn add_string(&mut self, name: String, values: Vec<String>)
        ensures
            final(self)@ == (ParamSetView {
                strings: old(self)@.strings.push(ParamSetItem { name, values }),
                ..old(self)@
            }),
    {
        self.strings.push(ParamSetItem { name, values });
    }

    /// Adds a boolean parameter.
    pub fn add_bool(&mut self, name: String, values: Vec<bool>)
        ensures
            final(self)@ == (ParamSetView {
                bools: old(self)@.bools.push(ParamSetItem { name, values }),
                ..old(self)@
            }),
    {
        self.bools.push(ParamSetItem { name, values });
    }

    /// Adds a texture-coordinate parameter.
    pub fn add_uv(&mut self, name: String, values: Vec<Point2<F>>)
        ensures
            final(self)@ == (ParamSetView {
                uvs: old(self)@.uvs.push(ParamSetItem { name, values }),
                ..old(self)@
            }),
    {
        self.uvs.push(ParamSetItem { name, values });
    }

    /// The single value of the boolean parameter `name`, or `default`.
    pub fn find_bool(&self, name: &str, default: bool) -> (r: bool)
        ensures
            r == param_value(name@, self@.bools, default),
    {
        find_param_value(name, self.bools.as_slice(), default)
    }

    /// The values of the texture-coordinate parameter `name`, or `default`.
    pub fn find_uvs<'a>(&'a self, name: &str, default: &'a [Point2<F>]) -> (r: &'a [Point2<F>])
        ensures
            r@ == param_values(name@, self@.uvs, default@),
    {
        find_param_values(name, self.uvs.as_slice(), default)
    }

    /// The single value of the real-valued parameter `name`, or `default`.
    pub fn find_f32(&self, name: &str, default: F) -> (r: F)
        ensures
            r == param_value(name@, self@.floats, default),
    {
        find_param_value(name, self.floats.as_slice(), default)
    }

    /// The single value of the integer parameter `name`, or `default`.
    pub fn find_i32(&self, name: &str, default: i32) -> (r: i32)
        ensures
            r == param_value(name@, self@.integers, default),
    {
        find_param_value(name, self.integers.as_slice(), default)
    }

    /// The values of the integer parameter `name`, or `default`.
    pub fn find_i32s<'a>(&'a self, name: &str, default: &'a [i32]) -> (r: &'a [i32])
        ensures
            r@ == param_values(name@, self@.integers, default@),
    {
        find_param_values(name, self.integers.as_slice(), default)
    }

    /// The single value of the spectrum parameter `name`, or `default`.
    pub fn find_spectrum(&self, name: &str, default: Spectrum<F>) -> (r: Spectrum<F>)
        ensures
            r == param_value(name@, self@.spectra, default),
    {
        find_param_value(name, self.spectra.as_slice(), default)
    }

    /// The single value of the point parameter `name`, or `default`.
    pub fn find_point(&self, name: &str, default: Point3<F>) -> (r: Point3<F>)
        ensures
            r == param_value(name@, self@.points, default),
    {
        find_param_value(name, self.points.as_slice(), default)
    }

    /// The values of the point parameter `name`, or `default`.
    pub fn find_points<'a>(&'a self, name: &str, default: &'a [Point3<F>]) -> (r: &'a [Point3<F>])
        ensures
            r@ == param_values(name@, self@.points, default@),
    {
        find_param_values(name, self.points.as_slice(), default)
    }

    /// The values of the normal parameter `name`, or `default`.
    pub fn find_normals<'a>(&'a self, name: &str, default: &'a [Normal<F>]) -> (r: &'a [Normal<F>])
        ensures
            r@ == param_values(name@, self@.normals, default@),
    {
        find_param_values(name, self.normals.as_slice(), default)
    }

    /// The single value of the string parameter `name`, or `default`.
    pub fn find_string<'a>(&'a self, name: &str, default: &'a str) -> (r: &'a str)
        ensures
            r@ == match first_single(name@, self@.strings) {
                Some(s) => s@,
                None => default@,
            },
    {
        let key = name.to_owned();
        let params = self.strings.as_slice();
        let mut i: usize = 0;
        proof {
            assert(params@.subrange(0, params@.len() as int) =~= params@);
        }
        while i < params.len()
            invariant
                i <= params@.len(),
                params@ == self@.strings,
                key@ == name@,
                first_single(name@, params@.subrange(i as int, params@.len() as int))
                    == first_single(name@, params@),
            decreases params.len() - i,
        {
            let param = &params[i];
            if param.name == key && param.values.len() == 1 {
                return param.values[0].as_str();
            }
            proof {
                lemma_skip_one(params@, i as int);
            }
            i += 1;
        }
        default
    }
}

} // verus!

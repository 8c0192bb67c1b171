//! Metadata of sample cubes.
use crate::members::member_name;
use crate::text::texts;
use vstd::prelude::*;
use vstd::string::*;

verus! {

/// What a cube is defined as.
#[derive(Clone, Copy, PartialEq, Eq, Structural, Debug)]
pub enum CubeMetaType {
    Cube,
    View,
}

/// A dimension: its full name and the type of its values.
#[derive(Debug)]
pub struct CubeMetaDimension {
    pub name: String,
    pub value_type: String,
}

/// A join to another cube.
#[derive(Debug)]
pub struct CubeMetaJoin {
    pub name: String,
    pub relationship: String,
}

/// A cube. Measures, segments, folders and hierarchies are listed by name.
#[derive(Debug)]
pub struct CubeMeta {
    pub name: String,
    pub title: Option<String>,
    pub description: Option<String>,
    pub cube_type: CubeMetaType,
    pub dimensions: Vec<CubeMetaDimension>,
    pub measures: Vec<String>,
    pub segments: Vec<String>,
    pub joins: Option<Vec<CubeMetaJoin>>,
    pub folders: Option<Vec<String>>,
    pub nested_folders: Option<Vec<String>>,
    pub hierarchies: Option<Vec<String>>,
    pub meta: Option<String>,
}

pub ghost struct DimensionModel {
    pub name: Seq<char>,
    pub value_type: Seq<char>,
}

pub ghost struct JoinMetaModel {
    pub name: Seq<char>,
    pub relationship: Seq<char>,
}

pub ghost struct CubeModel {
    pub name: Seq<char>,
    pub title: Option<Seq<char>>,
    pub description: Option<Seq<char>>,
    pub cube_type: CubeMetaType,
    pub dimensions: Seq<DimensionModel>,
    pub measures: Seq<Seq<char>>,
    pub segments: Seq<Seq<char>>,
    pub joins: Option<Seq<JoinMetaModel>>,
    pub folders: Option<Seq<Seq<char>>>,
    pub nested_folders: Option<Seq<Seq<char>>>,
    pub hierarchies: Option<Seq<Seq<char>>>,
    pub meta: Option<Seq<char>>,
}

impl View for CubeMetaDimension {
    type V = DimensionModel;

    open spec fn view(&self) -> DimensionModel {
        DimensionModel { name: self.name@, value_type: self.value_type@ }
    }
}

impl View for CubeMetaJoin {
    type V = JoinMetaModel;

    open spec fn view(&self) -> JoinMetaModel {
        JoinMetaModel { name: self.name@, relationship: self.relationship@ }
    }
}

/// The text that may be there.
pub open spec fn optional_text(text: Option<String>) -> Option<Seq<char>> {
    match text {
        Some(text) => Some(text@),
        None => None,
    }
}

/// The list of names that may be there.
pub open spec fn optional_texts(list: Option<Vec<String>>) -> Option<Seq<Seq<char>>> {
    match list {
        Some(list) => Some(texts(list@)),
        None => None,
    }
}

impl View for CubeMeta {
    type V = CubeModel;

    open spec fn view(&self) -> CubeModel {
        CubeModel {
            name: self.name@,
            title: optional_text(self.title),
            description: optional_text(self.description),
            cube_type: self.cube_type,
            dimensions: self.dimensions@.map_values(|dimension: CubeMetaDimension| dimension@),
            measures: texts(self.measures@),
            segments: texts(self.segments@),
            joins: match self.joins {
                Some(list) => Some(list@.map_values(|join: CubeMetaJoin| join@)),
                None => None,
            },
            folders: optional_texts(self.folders),
            nested_folders: optional_texts(self.nested_folders),
            hierarchies: optional_texts(self.hierarchies),
            meta: optional_text(self.meta),
        }
    }
}

/// The cubes of a list, as models.
pub open spec fn cube_models(list: Seq<CubeMeta>) -> Seq<CubeModel> {
    list.map_values(|cube: CubeMeta| cube@)
}

/// The members of every sample cube, without the cube's name. The last two are alike in their
/// first sixteen characters.
pub open spec fn short_names() -> Seq<Seq<char>> {
    seq!["id"@, "name"@, "abcdefghijklmnop_left"@, "abcdefghijklmnop_right"@]
}

/// A sample cube: the members above as string dimensions, the given joins, and nothing else.
pub open spec fn sample_cube(name: Seq<char>, joins: Option<Seq<JoinMetaModel>>) -> CubeModel {
    CubeModel {
        name,
        title: None,
        description: None,
        cube_type: CubeMetaType::Cube,
        dimensions: short_names().map_values(
            |member: Seq<char>|
                DimensionModel { name: member_name(name, member), value_type: "string"@ },
        ),
        measures: seq![],
        segments: seq![],
        joins,
        folders: None,
        nested_folders: None,
        hierarchies: None,
        meta: None,
    }
}

/// A join to a cube that each row of this one belongs to.
pub open spec fn belongs_to(name: Seq<char>) -> JoinMetaModel {
    JoinMetaModel { name, relationship: "belongsTo"@ }
}

/// Orders, and the buyers that they belong to.
pub open spec fn order_cubes() -> Seq<CubeModel> {
    seq![
        sample_cube("Orders"@, Some(seq![belongs_to("Buyers"@)])),
        sample_cube("Buyers"@, None),
    ]
}

/// Orders, and the two roles that they belong to.
pub open spec fn role_cubes() -> Seq<CubeModel> {
    seq![
        sample_cube(
            "Orders"@,
            Some(seq![belongs_to("Inspectors"@), belongs_to("Buyers"@)]),
        ),
        sample_cube("Inspectors"@, None),
        sample_cube("Buyers"@, None),
    ]
}

impl CubeMetaDimension {
    pub fn new(name: String, value_type: String) -> (r: Self)
        ensures
            r.name == name,
            r.value_type == value_type,
    {
        Self { name, value_type }
    }
}

fn string_dimension(cube: &str, member: &str) -> (r: CubeMetaDimension)
    ensures
        r@ == (DimensionModel { name: member_name(cube@, member@), value_type: "string"@ }),
{
    CubeMetaDimension::new(cube.to_owned().concat(".").concat(member), "string".to_owned())
}

fn belonging_join(name: &str) -> (r: CubeMetaJoin)
    ensures
        r@ == belongs_to(name@),
{
    CubeMetaJoin { name: name.to_owned(), relationship: "belongsTo".to_owned() }
}

fn build_cube(name: &str, joins: Option<Vec<CubeMetaJoin>>) -> (r: CubeMeta)
    ensures
        joins is Some ==> r@ == sample_cube(
            name@,
            Some(joins->0@.map_values(|join: CubeMetaJoin| join@)),
        ),
        joins is None ==> r@ == sample_cube(name@, None),
{
    let mut dimensions: Vec<CubeMetaDimension> = Vec::new();
    dimensions.push(string_dimension(name, "id"));
    dimensions.push(string_dimension(name, "name"));
    dimensions.push(string_dimension(name, "abcdefghijklmnop_left"));
    dimensions.push(string_dimension(name, "abcdefghijklmnop_right"));
    assert(dimensions@.map_values(|dimension: CubeMetaDimension| dimension@) =~= sample_cube(
        name@,
        None,
    ).dimensions);
    let cube = CubeMeta {
        name: name.to_owned(),
        title: None,
        description: None,
        cube_type: CubeMetaType::Cube,
        dimensions,
        measures: Vec::new(),
        segments: Vec::new(),
        joins,
        folders: None,
        nested_folders: None,
        hierarchies: None,
        meta: None,
    };
    assert(texts(cube.measures@) =~= Seq::<Seq<char>>::empty());
    assert(texts(cube.segments@) =~= Seq::<Seq<char>>::empty());
    cube
}

/// Two related cubes that expose the same short member names.
pub fn alias_meta() -> (r: Vec<CubeMeta>)
    ensures
        cube_models(r@) == order_cubes(),
{
    let mut joins: Vec<CubeMetaJoin> = Vec::new();
    joins.push(belonging_join("Buyers"));
    assert(joins@.map_values(|join: CubeMetaJoin| join@) =~= seq![belongs_to("Buyers"@)]);
    let mut cubes: Vec<CubeMeta> = Vec::new();
    cubes.push(build_cube("Orders", Some(joins)));
    cubes.push(build_cube("Buyers", None));
    assert(cube_models(cubes@) =~= order_cubes());
    cubes
}

/// Orders with two roles. All three cubes expose the same short member names.
pub fn role_meta() -> (r: Vec<CubeMeta>)
    ensures
        cube_models(r@) == role_cubes(),
{
    let mut joins: Vec<CubeMetaJoin> = Vec::new();
    joins.push(belonging_join("Inspectors"));
    joins.push(belonging_join("Buyers"));
    assert(joins@.map_values(|join: CubeMetaJoin| join@) =~= seq![
        belongs_to("Inspectors"@),
        belongs_to("Buyers"@),
    ]);
    let mut cubes: Vec<CubeMeta> = Vec::new();
    cubes.push(build_cube("Orders", Some(joins)));
    cubes.push(build_cube("Inspectors", None));
    cubes.push(build_cube("Buyers", None));
    assert(cube_models(cubes@) =~= role_cubes());
    cubes
}

/// Any two sample cubes expose the same short member names, in the same order.
pub proof fn law_sample_cubes_share_member_names(first: Seq<char>, second: Seq<char>)
    ensures
        sample_cube(first, None).dimensions.len() == short_names().len(),
        sample_cube(second, None).dimensions.len() == short_names().len(),
        forall|i: int|
            #![trigger short_names()[i]]
            0 <= i < short_names().len() ==> {
                &&& sample_cube(first, None).dimensions[i].name == member_name(
                    first,
                    short_names()[i],
                )
                &&& sample_cube(second, None).dimensions[i].name == member_name(
                    second,
                    short_names()[i],
                )
            },
{
}

} // verus!

//! The metadata catalog: documented types, members and functions of the
//! target C library, and the derived name-indexed lookup maps.

use crate::name_map::NameMap;
use crate::strutil::{collapse_newlines, spec_collapse_nl};
use vstd::prelude::*;

verus! {

/// Direction of a function parameter.
#[derive(Clone, Copy, Debug, PartialEq, Eq, Structural)]
pub enum Mode {
    In,
    Out,
    InOut,
}

/// Fixed-width integer type underlying an enum.
#[derive(Clone, Copy, Debug, PartialEq, Eq, Structural)]
pub enum UnderlyingType {
    Uint8,
    Uint16,
    Uint32,
}

/// What kind of C type a catalog entry describes.
#[derive(Clone, Copy, Debug, PartialEq, Eq, Structural)]
pub enum DataKind {
    Enum,
    OpaqueStruct,
    Struct,
    Union,
}

/// Whether calling a function can cause a network round trip to the
/// database: `Yes` and `Maybe` may block, `No` never does.
#[derive(Clone, Copy, Debug, PartialEq, Eq, Structural)]
pub enum RoundTrips {
    Yes,
    No,
    Maybe,
}

/// A struct/union field, enum constant, or function parameter.
#[derive(Clone, Debug)]
pub struct MemberInfo {
    pub name: String,
    pub desc: String,
    pub c_type: Option<String>,
    pub mode: Option<Mode>,
}

/// A documented C function.
#[derive(Clone, Debug)]
pub struct FunctionInfo {
    pub name: String,
    pub desc: String,
    pub round_trips: RoundTrips,
    pub rettype: String,
    pub params: Vec<MemberInfo>,
}

/// A documented C type together with its members and associated functions.
#[derive(Clone, Debug)]
pub struct DataTypeInfo {
    pub name: String,
    pub kind: DataKind,
    pub desc: String,
    pub underlying_type: Option<UnderlyingType>,
    pub members: Vec<MemberInfo>,
    pub functions: Vec<FunctionInfo>,
}

/// The round-trip index extended with the functions of one type.
pub open spec fn rt_add_funcs(
    m: Map<Seq<char>, RoundTrips>,
    fs: Seq<FunctionInfo>,
) -> Map<Seq<char>, RoundTrips>
    decreases fs.len(),
{
    if fs.len() == 0 {
        m
    } else {
        rt_add_funcs(m.insert(fs[0].name@, fs[0].round_trips), fs.drop_first())
    }
}

/// The round-trip index of a catalog: function name to classification.
pub open spec fn rt_map(
    m: Map<Seq<char>, RoundTrips>,
    dts: Seq<DataTypeInfo>,
) -> Map<Seq<char>, RoundTrips>
    decreases dts.len(),
{
    if dts.len() == 0 {
        m
    } else {
        rt_map(rt_add_funcs(m, dts[0].functions@), dts.drop_first())
    }
}

/// The width index extended with the members of one enum of declared width.
pub open spec fn ut_add_members(
    m: Map<Seq<char>, UnderlyingType>,
    ms: Seq<MemberInfo>,
    u: UnderlyingType,
) -> Map<Seq<char>, UnderlyingType>
    decreases ms.len(),
{
    if ms.len() == 0 {
        m
    } else {
        ut_add_members(m.insert(ms[0].name@, u), ms.drop_first(), u)
    }
}

/// The width index of a catalog: member name to declared integer width,
/// from enum-kind types that declare an underlying type.
pub open spec fn ut_map(
    m: Map<Seq<char>, UnderlyingType>,
    dts: Seq<DataTypeInfo>,
) -> Map<Seq<char>, UnderlyingType>
    decreases dts.len(),
{
    if dts.len() == 0 {
        m
    } else {
        let m1 = match dts[0].underlying_type {
            Some(u) => ut_add_members(m, dts[0].members@, u),
            None => m,
        };
        ut_map(m1, dts.drop_first())
    }
}

/// The composite lookup key of a field: `TypeName::fieldName`.
pub open spec fn field_key(owner_name: Seq<char>, member_name: Seq<char>) -> Seq<char> {
    owner_name + "::"@ + member_name
}

/// The description index extended with the enum constants of one type,
/// under their bare names.
pub open spec fn desc_add_enum_members(
    m: Map<Seq<char>, Seq<char>>,
    ms: Seq<MemberInfo>,
) -> Map<Seq<char>, Seq<char>>
    decreases ms.len(),
{
    if ms.len() == 0 {
        m
    } else {
        desc_add_enum_members(m.insert(ms[0].name@, ms[0].desc@), ms.drop_first())
    }
}

/// The description index extended with the fields of one struct or union,
/// under composite keys.
pub open spec fn desc_add_field_members(
    m: Map<Seq<char>, Seq<char>>,
    owner_name: Seq<char>,
    ms: Seq<MemberInfo>,
) -> Map<Seq<char>, Seq<char>>
    decreases ms.len(),
{
    if ms.len() == 0 {
        m
    } else {
        desc_add_field_members(
            m.insert(field_key(owner_name, ms[0].name@), ms[0].desc@),
            owner_name,
            ms.drop_first(),
        )
    }
}

/// The description index extended with the functions of one type.
pub open spec fn desc_add_funcs(
    m: Map<Seq<char>, Seq<char>>,
    fs: Seq<FunctionInfo>,
) -> Map<Seq<char>, Seq<char>>
    decreases fs.len(),
{
    if fs.len() == 0 {
        m
    } else {
        desc_add_funcs(m.insert(fs[0].name@, fs[0].desc@), fs.drop_first())
    }
}

/// The description index extended with one catalog entry: the type's own
/// description, its members (keyed by kind), then its functions.
pub open spec fn desc_add_type(
    m: Map<Seq<char>, Seq<char>>,
    dt: DataTypeInfo,
) -> Map<Seq<char>, Seq<char>> {
    let m1 = m.insert(dt.name@, dt.desc@);
    let m2 = match dt.kind {
        DataKind::Enum => desc_add_enum_members(m1, dt.members@),
        DataKind::Struct => desc_add_field_members(m1, dt.name@, dt.members@),
        DataKind::Union => desc_add_field_members(m1, dt.name@, dt.members@),
        DataKind::OpaqueStruct => m1,
    };
    desc_add_funcs(m2, dt.functions@)
}

/// The description index of a catalog.
pub open spec fn desc_map(
    m: Map<Seq<char>, Seq<char>>,
    dts: Seq<DataTypeInfo>,
) -> Map<Seq<char>, Seq<char>>
    decreases dts.len(),
{
    if dts.len() == 0 {
        m
    } else {
        desc_map(desc_add_type(m, dts[0]), dts.drop_first())
    }
}

/// A description map seen at the level of character sequences.
pub open spec fn desc_view(m: Map<Seq<char>, String>) -> Map<Seq<char>, Seq<char>> {
    Map::new(|k: Seq<char>| m.contains_key(k), |k: Seq<char>| m[k]@)
}

proof fn lemma_desc_view_insert(m: Map<Seq<char>, String>, k: Seq<char>, v: String)
    ensures
        desc_view(m.insert(k, v)) =~= desc_view(m).insert(k, v@),
{
}

/// The fully loaded catalog with its three derived indexes.
#[derive(Clone, Debug)]
#[non_exhaustive]
pub struct OdpicDoc {
    pub data_types: Vec<DataTypeInfo>,
    pub round_trips_map: NameMap<RoundTrips>,
    pub underlying_type_map: NameMap<UnderlyingType>,
    pub name_to_desc: NameMap<String>,
}

fn build_round_trips(data_types: &Vec<DataTypeInfo>) -> (m: NameMap<RoundTrips>)
    ensures
        m.wf(),
        m@ == rt_map(Map::empty(), data_types@),
{
    let ghost all = data_types@;
    let n = data_types.len();
    let mut m: NameMap<RoundTrips> = NameMap::new();
    proof {
        assert(all.skip(0) =~= all);
    }
    let mut i: usize = 0;
    while i < n
        invariant
            n == all.len(),
            data_types@ == all,
            0 <= i <= n,
            m.wf(),
            rt_map(m@, all.skip(i as int)) == rt_map(Map::empty(), all),
        decreases n - i,
    {
        let dt = &data_types[i];
        let ghost fs = dt.functions@;
        proof {
            assert(all.skip(i as int)[0] == all[i as int]);
            assert(all.skip(i as int).drop_first() =~= all.skip(i as int + 1));
            assert(fs.skip(0) =~= fs);
        }
        let fn_count = dt.functions.len();
        let mut j: usize = 0;
        while j < fn_count
            invariant
                fn_count == fs.len(),
                data_types@ == all,
                0 <= i < all.len(),
                all[i as int].functions@ == fs,
                0 <= j <= fn_count,
                m.wf(),
                rt_map(rt_add_funcs(m@, fs.skip(j as int)), all.skip(i as int + 1))
                    == rt_map(Map::empty(), all),
            decreases fn_count - j,
        {
            let f = &data_types[i].functions[j];
            proof {
                assert(fs.skip(j as int)[0] == fs[j as int]);
                assert(fs.skip(j as int).drop_first() =~= fs.skip(j as int + 1));
            }
            m.insert(f.name.clone(), f.round_trips);
            j += 1;
        }
        proof {
            assert(fs.skip(fn_count as int) =~= Seq::<FunctionInfo>::empty());
        }
        i += 1;
    }
    proof {
        assert(all.skip(n as int) =~= Seq::<DataTypeInfo>::empty());
    }
    m
}

fn build_underlying_types(data_types: &Vec<DataTypeInfo>) -> (m: NameMap<UnderlyingType>)
    ensures
        m.wf(),
        m@ == ut_map(Map::empty(), data_types@),
{
    let ghost all = data_types@;
    let n = data_types.len();
    let mut m: NameMap<UnderlyingType> = NameMap::new();
    proof {
        assert(all.skip(0) =~= all);
    }
    let mut i: usize = 0;
    while i < n
        invariant
            n == all.len(),
            data_types@ == all,
            0 <= i <= n,
            m.wf(),
            ut_map(m@, all.skip(i as int)) == ut_map(Map::empty(), all),
        decreases n - i,
    {
        let dt = &data_types[i];
        let ghost ms = dt.members@;
        proof {
            assert(all.skip(i as int)[0] == all[i as int]);
            assert(all.skip(i as int).drop_first() =~= all.skip(i as int + 1));
            assert(ms.skip(0) =~= ms);
        }
        if let Some(u) = dt.underlying_type {
            let member_count = dt.members.len();
            let mut j: usize = 0;
            while j < member_count
                invariant
                    member_count == ms.len(),
                    data_types@ == all,
                    0 <= i < all.len(),
                    all[i as int].members@ == ms,
                    all[i as int].underlying_type == Some(u),
                    0 <= j <= member_count,
                    m.wf(),
                    ut_map(ut_add_members(m@, ms.skip(j as int), u), all.skip(i as int + 1))
                        == ut_map(Map::empty(), all),
                decreases member_count - j,
            {
                let mem = &data_types[i].members[j];
                proof {
                    assert(ms.skip(j as int)[0] == ms[j as int]);
                    assert(ms.skip(j as int).drop_first() =~= ms.skip(j as int + 1));
                }
                m.insert(mem.name.clone(), u);
                j += 1;
            }
            proof {
                assert(ms.skip(member_count as int) =~= Seq::<MemberInfo>::empty());
            }
        }
        i += 1;
    }
    proof {
        assert(all.skip(n as int) =~= Seq::<DataTypeInfo>::empty());
    }
    m
}

fn build_name_to_desc(data_types: &Vec<DataTypeInfo>) -> (m: NameMap<String>)
    ensures
        m.wf(),
        desc_view(m@) == desc_map(Map::empty(), data_types@),
{
    let ghost all = data_types@;
    let n = data_types.len();
    let mut m: NameMap<String> = NameMap::new();
    proof {
        assert(all.skip(0) =~= all);
        assert(desc_view(m@) =~= Map::<Seq<char>, Seq<char>>::empty());
    }
    let ghost target = desc_map(Map::<Seq<char>, Seq<char>>::empty(), all);
    let mut i: usize = 0;
    while i < n
        invariant
            n == all.len(),
            data_types@ == all,
            target == desc_map(Map::<Seq<char>, Seq<char>>::empty(), all),
            0 <= i <= n,
            m.wf(),
            desc_map(desc_view(m@), all.skip(i as int)) == target,
        decreases n - i,
    {
        let dt = &data_types[i];
        let ghost ms = dt.members@;
        let ghost fs = dt.functions@;
        proof {
            assert(all.skip(i as int)[0] == all[i as int]);
            assert(all.skip(i as int).drop_first() =~= all.skip(i as int + 1));
        }
        assert(desc_map(desc_add_type(desc_view(m@), all[i as int]), all.skip(i as int + 1))
            == target);
        let name_c = dt.name.clone();
        let desc_c = dt.desc.clone();
        let ghost m0 = m@;
        m.insert(name_c, desc_c);
        proof {
            lemma_desc_view_insert(m0, dt.name@, dt.desc);
            assert(desc_view(m@) == desc_view(m0).insert(dt.name@, dt.desc@));
        }
        match dt.kind {
            DataKind::Enum => {
                proof {
                    assert(ms.skip(0) =~= ms);
                }
                let member_count = dt.members.len();
                let mut j: usize = 0;
                while j < member_count
                    invariant
                        member_count == ms.len(),
                        data_types@ == all,
                        target == desc_map(Map::<Seq<char>, Seq<char>>::empty(), all),
                        0 <= i < all.len(),
                        all[i as int].members@ == ms,
                        all[i as int].functions@ == fs,
                        0 <= j <= member_count,
                        m.wf(),
                        desc_map(
                            desc_add_funcs(desc_add_enum_members(desc_view(m@), ms.skip(j as int)), fs),
                            all.skip(i as int + 1),
                        ) == target,
                    decreases member_count - j,
                {
                    let mem = &data_types[i].members[j];
                    proof {
                        assert(ms.skip(j as int)[0] == ms[j as int]);
                        assert(ms.skip(j as int).drop_first() =~= ms.skip(j as int + 1));
                    }
                    let mname = mem.name.clone();
                    let mdesc = mem.desc.clone();
                    let ghost m1 = m@;
                    m.insert(mname, mdesc);
                    proof {
                        lemma_desc_view_insert(m1, ms[j as int].name@, data_types@[i as int].members@[j as int].desc);
                        assert(desc_view(m@) == desc_view(m1).insert(ms[j as int].name@, ms[j as int].desc@));
                    }
                    j += 1;
                }
                proof {
                    assert(ms.skip(member_count as int) =~= Seq::<MemberInfo>::empty());
                }
            },
            DataKind::Struct | DataKind::Union => {
                proof {
                    assert(ms.skip(0) =~= ms);
                }
                let member_count = dt.members.len();
                let mut j: usize = 0;
                while j < member_count
                    invariant
                        member_count == ms.len(),
                        data_types@ == all,
                        target == desc_map(Map::<Seq<char>, Seq<char>>::empty(), all),
                        0 <= i < all.len(),
                        all[i as int].members@ == ms,
                        all[i as int].functions@ == fs,
                        0 <= j <= member_count,
                        m.wf(),
                        desc_map(
                            desc_add_funcs(
                                desc_add_field_members(
                                    desc_view(m@),
                                    all[i as int].name@,
                                    ms.skip(j as int),
                                ),
                                fs,
                            ),
                            all.skip(i as int + 1),
                        ) == target,
                    decreases member_count - j,
                {
                    let mem = &data_types[i].members[j];
                    proof {
                        assert(ms.skip(j as int)[0] == ms[j as int]);
                        assert(ms.skip(j as int).drop_first() =~= ms.skip(j as int + 1));
                    }
                    let key = data_types[i].name.clone().concat("::").concat(mem.name.as_str());
                    assert(key@ == field_key(all[i as int].name@, ms[j as int].name@));
                    let mdesc = mem.desc.clone();
                    let ghost m1 = m@;
                    m.insert(key, mdesc);
                    proof {
                        lemma_desc_view_insert(
                            m1,
                            field_key(all[i as int].name@, ms[j as int].name@),
                            data_types@[i as int].members@[j as int].desc,
                        );
                    }
                    j += 1;
                }
                proof {
                    assert(ms.skip(member_count as int) =~= Seq::<MemberInfo>::empty());
                }
            },
            DataKind::OpaqueStruct => {},
        }
        proof {
            assert(fs.skip(0) =~= fs);
        }
        let fn_count = dt.functions.len();
        let mut j: usize = 0;
        while j < fn_count
            invariant
                fn_count == fs.len(),
                data_types@ == all,
                target == desc_map(Map::<Seq<char>, Seq<char>>::empty(), all),
                0 <= i < all.len(),
                all[i as int].functions@ == fs,
                0 <= j <= fn_count,
                m.wf(),
                desc_map(desc_add_funcs(desc_view(m@), fs.skip(j as int)), all.skip(i as int + 1))
                    == target,
            decreases fn_count - j,
        {
            let f = &data_types[i].functions[j];
            proof {
                assert(fs.skip(j as int)[0] == fs[j as int]);
                assert(fs.skip(j as int).drop_first() =~= fs.skip(j as int + 1));
            }
            let fname = f.name.clone();
            let fdesc = f.desc.clone();
            let ghost m1 = m@;
            m.insert(fname, fdesc);
            proof {
                lemma_desc_view_insert(m1, fs[j as int].name@, data_types@[i as int].functions@[j as int].desc);
            }
            j += 1;
        }
        proof {
            assert(fs.skip(fn_count as int) =~= Seq::<FunctionInfo>::empty());
        }
        i += 1;
    }
    proof {
        assert(all.skip(n as int) =~= Seq::<DataTypeInfo>::empty());
    }
    m
}

impl OdpicDoc {
    /// The three indexes are well-formed.
    pub open spec fn wf(&self) -> bool {
        self.round_trips_map.wf() && self.underlying_type_map.wf() && self.name_to_desc.wf()
    }

    /// Build the catalog and its three derived indexes from the
    /// deserialized type entries.
    pub fn read_yaml(data_types: Vec<DataTypeInfo>) -> (r: OdpicDoc)
        ensures
            r.wf(),
            r.data_types == data_types,
            r.round_trips_map@ == rt_map(Map::empty(), data_types@),
            r.underlying_type_map@ == ut_map(Map::empty(), data_types@),
            desc_view(r.name_to_desc@) == desc_map(Map::empty(), data_types@),
    {
        let round_trips_map = build_round_trips(&data_types);
        let underlying_type_map = build_underlying_types(&data_types);
        let name_to_desc = build_name_to_desc(&data_types);
        OdpicDoc { data_types, round_trips_map, underlying_type_map, name_to_desc }
    }

    /// Look a name up in the description index.
    pub fn find_desc(&self, name: &str) -> (r: Option<&str>)
        requires
            self.wf(),
        ensures
            match r {
                Some(d) => self.name_to_desc@.contains_key(name@)
                    && d@ == desc_view(self.name_to_desc@)[name@],
                None => !self.name_to_desc@.contains_key(name@),
            },
    {
        match self.name_to_desc.get(name) {
            Some(s) => Some(s.as_str()),
            None => None,
        }
    }

    /// Look a member name up in the declared-width index.
    pub fn find_underlying_type(&self, name: &str) -> (r: Option<UnderlyingType>)
        requires
            self.wf(),
        ensures
            match r {
                Some(u) => self.underlying_type_map@.contains_key(name@)
                    && self.underlying_type_map@[name@] == u,
                None => !self.underlying_type_map@.contains_key(name@),
            },
    {
        match self.underlying_type_map.get(name) {
            Some(u) => Some(*u),
            None => None,
        }
    }
}

/// The rows of the value table appended to an enum's description: one row
/// per member, the member's description with newlines collapsed to spaces.
pub open spec fn enum_table_rows(ms: Seq<MemberInfo>) -> Seq<char>
    decreases ms.len(),
{
    if ms.len() == 0 {
        Seq::empty()
    } else {
        enum_table_rows(ms.drop_last()) + "`"@ + ms.last().name@ + "` | "@ + spec_collapse_nl(
            ms.last().desc@,
        ) + "\n"@
    }
}

/// The full value table appended to an enum's description.
pub open spec fn enum_table(ms: Seq<MemberInfo>) -> Seq<char> {
    "\n"@ + "Value | Description\n"@ + "---|---\n"@ + enum_table_rows(ms)
}

/// The one-line cross-reference that replaces an enum constant's
/// standalone description.
pub open spec fn see_ref(owner: Seq<char>) -> Seq<char> {
    "See [`"@ + owner + "`]"@
}

/// The description index with the constants of one enum replaced by
/// cross-references to their owner.
pub open spec fn rewrite_members(
    m: Map<Seq<char>, Seq<char>>,
    owner: Seq<char>,
    ms: Seq<MemberInfo>,
) -> Map<Seq<char>, Seq<char>>
    decreases ms.len(),
{
    if ms.len() == 0 {
        m
    } else {
        rewrite_members(m.insert(ms[0].name@, see_ref(owner)), owner, ms.drop_first())
    }
}

/// The enum-description rewrite for one catalog entry: for an enum, its
/// own description gains the value table and each constant's description
/// becomes a cross-reference; any other kind is untouched.
pub open spec fn rewrite_type(m: Map<Seq<char>, Seq<char>>, dt: DataTypeInfo) -> Map<
    Seq<char>,
    Seq<char>,
> {
    match dt.kind {
        DataKind::Enum => rewrite_members(
            m.insert(dt.name@, m[dt.name@] + enum_table(dt.members@)),
            dt.name@,
            dt.members@,
        ),
        _ => m,
    }
}

/// The enum-description rewrite over a whole catalog.
pub open spec fn rewrite_descs(
    m: Map<Seq<char>, Seq<char>>,
    dts: Seq<DataTypeInfo>,
) -> Map<Seq<char>, Seq<char>>
    decreases dts.len(),
{
    if dts.len() == 0 {
        m
    } else {
        rewrite_descs(rewrite_type(m, dts[0]), dts.drop_first())
    }
}

/// `k` names a constant of some enum-kind entry of `dts`.
pub open spec fn has_enum_member(dts: Seq<DataTypeInfo>, k: Seq<char>) -> bool {
    exists|i: int, j: int|
        0 <= i < dts.len() && dts[i].kind == DataKind::Enum && 0 <= j < dts[i].members@.len() && (
        #[trigger] dts[i].members@[j]).name@ == k
}

proof fn lemma_rm_hit(m: Map<Seq<char>, Seq<char>>, owner: Seq<char>, ms: Seq<MemberInfo>, k: Seq<char>)
    requires
        exists|j: int| 0 <= j < ms.len() && (#[trigger] ms[j]).name@ == k,
    ensures
        rewrite_members(m, owner, ms).contains_key(k),
        rewrite_members(m, owner, ms)[k] == see_ref(owner),
    decreases ms.len(),
{
    let j = choose|j: int| 0 <= j < ms.len() && (#[trigger] ms[j]).name@ == k;
    if exists|j2: int| 1 <= j2 < ms.len() && (#[trigger] ms[j2]).name@ == k {
        let j2 = choose|j2: int| 1 <= j2 < ms.len() && (#[trigger] ms[j2]).name@ == k;
        assert(ms.drop_first()[j2 - 1].name@ == k);
        lemma_rm_hit(m.insert(ms[0].name@, see_ref(owner)), owner, ms.drop_first(), k);
    } else {
        assert(j == 0);
        assert(forall|x: int|
            0 <= x < ms.drop_first().len() ==> (#[trigger] ms.drop_first()[x]).name@ != k);
        lemma_rm_miss(m.insert(k, see_ref(owner)), owner, ms.drop_first(), k);
    }
}

proof fn lemma_rm_miss(m: Map<Seq<char>, Seq<char>>, owner: Seq<char>, ms: Seq<MemberInfo>, k: Seq<char>)
    requires
        forall|j: int| 0 <= j < ms.len() ==> (#[trigger] ms[j]).name@ != k,
    ensures
        rewrite_members(m, owner, ms).contains_key(k) == m.contains_key(k),
        m.contains_key(k) ==> rewrite_members(m, owner, ms)[k] == m[k],
    decreases ms.len(),
{
    if ms.len() > 0 {
        assert(forall|x: int|
            0 <= x < ms.drop_first().len() ==> (#[trigger] ms.drop_first()[x]).name@ != k);
        assert(ms[0].name@ != k);
        lemma_rm_miss(m.insert(ms[0].name@, see_ref(owner)), owner, ms.drop_first(), k);
    }
}

/// `k` names an enum-kind entry of `dts`.
pub open spec fn is_enum_type_name(dts: Seq<DataTypeInfo>, k: Seq<char>) -> bool {
    exists|i: int|
        0 <= i < dts.len() && (#[trigger] dts[i]).kind == DataKind::Enum && dts[i].name@ == k
}

proof fn lemma_rt_preserves_contains(m: Map<Seq<char>, Seq<char>>, d: DataTypeInfo, k: Seq<char>)
    requires
        m.contains_key(k),
    ensures
        rewrite_type(m, d).contains_key(k),
{
    match d.kind {
        DataKind::Enum => {
            lemma_rm_preserves_contains(
                m.insert(d.name@, m[d.name@] + enum_table(d.members@)),
                d.name@,
                d.members@,
                k,
            );
        },
        _ => {},
    }
}

proof fn lemma_rewrite_descs_agree(
    m1: Map<Seq<char>, Seq<char>>,
    m2: Map<Seq<char>, Seq<char>>,
    dts: Seq<DataTypeInfo>,
    k: Seq<char>,
)
    requires
        has_enum_member(dts, k) || (m1.contains_key(k) == m2.contains_key(k) && (m1.contains_key(k)
            ==> m1[k] == m2[k])),
        is_enum_type_name(dts, k) ==> m1.contains_key(k) && m2.contains_key(k),
    ensures
        rewrite_descs(m1, dts).contains_key(k) == rewrite_descs(m2, dts).contains_key(k),
        rewrite_descs(m1, dts).contains_key(k) ==> rewrite_descs(m1, dts)[k] == rewrite_descs(
            m2,
            dts,
        )[k],
    decreases dts.len(),
{
    if dts.len() == 0 {
    } else {
        let d = dts[0];
        let rest = dts.drop_first();
        let n1 = rewrite_type(m1, d);
        let n2 = rewrite_type(m2, d);
        assert(is_enum_type_name(rest, k) ==> n1.contains_key(k) && n2.contains_key(k)) by {
            if is_enum_type_name(rest, k) {
                let i = choose|i: int|
                    0 <= i < rest.len() && (#[trigger] rest[i]).kind == DataKind::Enum
                        && rest[i].name@ == k;
                assert(dts[i + 1] == rest[i]);
                assert(is_enum_type_name(dts, k));
                lemma_rt_preserves_contains(m1, d, k);
                lemma_rt_preserves_contains(m2, d, k);
            }
        }
        if has_enum_member(rest, k) {
            lemma_rewrite_descs_agree(n1, n2, rest, k);
        } else {
            let in_d = d.kind == DataKind::Enum && exists|j: int|
                0 <= j < d.members@.len() && (#[trigger] d.members@[j]).name@ == k;
            if in_d {
                lemma_rm_hit(m1.insert(d.name@, m1[d.name@] + enum_table(d.members@)), d.name@, d.members@, k);
                lemma_rm_hit(m2.insert(d.name@, m2[d.name@] + enum_table(d.members@)), d.name@, d.members@, k);
                lemma_rewrite_descs_agree(n1, n2, rest, k);
            } else {
                assert(has_enum_member(dts, k) ==> in_d || has_enum_member(rest, k)) by {
                    if has_enum_member(dts, k) {
                        let (i, j) = choose|i: int, j: int|
                            0 <= i < dts.len() && dts[i].kind == DataKind::Enum && 0 <= j < dts[i].members@.len()
                                && (#[trigger] dts[i].members@[j]).name@ == k;
                        if i > 0 {
                            assert(rest[i - 1].members@[j].name@ == k);
                            assert(has_enum_member(rest, k));
                        }
                    }
                }
                assert(m1.contains_key(k) == m2.contains_key(k));
                match d.kind {
                    DataKind::Enum => {
                        assert(forall|j: int|
                            0 <= j < d.members@.len() ==> (#[trigger] d.members@[j]).name@ != k);
                        let b1 = m1.insert(d.name@, m1[d.name@] + enum_table(d.members@));
                        let b2 = m2.insert(d.name@, m2[d.name@] + enum_table(d.members@));
                        if k == d.name@ {
                            assert(is_enum_type_name(dts, k)) by {
                                assert(dts[0].kind == DataKind::Enum && dts[0].name@ == k);
                            }
                            assert(m1[k] == m2[k]);
                            assert(b1[k] == b2[k]);
                        }
                        lemma_rm_miss(b1, d.name@, d.members@, k);
                        lemma_rm_miss(b2, d.name@, d.members@, k);
                        lemma_rewrite_descs_agree(n1, n2, rest, k);
                    },
                    _ => {
                        lemma_rewrite_descs_agree(n1, n2, rest, k);
                    },
                }
            }
        }
    }
}

/// Law: the enum-description rewrite is idempotent on member
/// descriptions. Applying the rewrite a second time leaves the
/// description of every enum constant exactly as the first application
/// left it: the cross-reference a constant's entry was rewritten to
/// depends only on the catalog, never on the entry's previous value.
pub proof fn lemma_rewrite_member_descs_idempotent(
    m: Map<Seq<char>, Seq<char>>,
    dts: Seq<DataTypeInfo>,
    k: Seq<char>,
)
    requires
        has_enum_member(dts, k),
        forall|i: int|
            0 <= i < dts.len() && (#[trigger] dts[i]).kind == DataKind::Enum ==> m.contains_key(
                dts[i].name@,
            ),
    ensures
        rewrite_descs(rewrite_descs(m, dts), dts).contains_key(k),
        rewrite_descs(rewrite_descs(m, dts), dts)[k] == rewrite_descs(m, dts)[k],
{
    assert(is_enum_type_name(dts, k) ==> rewrite_descs(m, dts).contains_key(k) && m.contains_key(
        k,
    )) by {
        if is_enum_type_name(dts, k) {
            let i = choose|i: int|
                0 <= i < dts.len() && (#[trigger] dts[i]).kind == DataKind::Enum && dts[i].name@
                    == k;
            assert(m.contains_key(k));
            lemma_rd_preserves_contains(m, dts, k);
        }
    }
    lemma_rewrite_descs_agree(rewrite_descs(m, dts), m, dts, k);
    assert(rewrite_descs(m, dts).contains_key(k)) by {
        lemma_rd_member_contains(m, dts, k);
    }
}

proof fn lemma_rd_member_contains(m: Map<Seq<char>, Seq<char>>, dts: Seq<DataTypeInfo>, k: Seq<char>)
    requires
        has_enum_member(dts, k),
    ensures
        rewrite_descs(m, dts).contains_key(k),
    decreases dts.len(),
{
    let d = dts[0];
    let rest = dts.drop_first();
    if has_enum_member(rest, k) {
        lemma_rd_member_contains(rewrite_type(m, d), rest, k);
    } else {
        let (i, j) = choose|i: int, j: int|
            0 <= i < dts.len() && dts[i].kind == DataKind::Enum && 0 <= j < dts[i].members@.len()
                && (#[trigger] dts[i].members@[j]).name@ == k;
        if i > 0 {
            assert(rest[i - 1].members@[j].name@ == k);
            assert(has_enum_member(rest, k));
        }
        assert(i == 0);
        lemma_rm_hit(m.insert(d.name@, m[d.name@] + enum_table(d.members@)), d.name@, d.members@, k);
        lemma_rd_preserves_contains(rewrite_type(m, d), rest, k);
    }
}

proof fn lemma_rd_preserves_contains(m: Map<Seq<char>, Seq<char>>, dts: Seq<DataTypeInfo>, k: Seq<char>)
    requires
        m.contains_key(k),
    ensures
        rewrite_descs(m, dts).contains_key(k),
    decreases dts.len(),
{
    if dts.len() > 0 {
        let d = dts[0];
        assert(rewrite_type(m, d).contains_key(k)) by {
            match d.kind {
                DataKind::Enum => {
                    lemma_rm_preserves_contains(
                        m.insert(d.name@, m[d.name@] + enum_table(d.members@)),
                        d.name@,
                        d.members@,
                        k,
                    );
                },
                _ => {},
            }
        }
        lemma_rd_preserves_contains(rewrite_type(m, d), dts.drop_first(), k);
    }
}

proof fn lemma_rm_preserves_contains(
    m: Map<Seq<char>, Seq<char>>,
    owner: Seq<char>,
    ms: Seq<MemberInfo>,
    k: Seq<char>,
)
    requires
        m.contains_key(k),
    ensures
        rewrite_members(m, owner, ms).contains_key(k),
    decreases ms.len(),
{
    if ms.len() > 0 {
        lemma_rm_preserves_contains(m.insert(ms[0].name@, see_ref(owner)), owner, ms.drop_first(), k);
    }
}

/// The description index of a catalog holds every entry's type name.
pub proof fn lemma_desc_map_contains_type_names(m: Map<Seq<char>, Seq<char>>, dts: Seq<DataTypeInfo>)
    ensures
        forall|i: int|
            0 <= i < dts.len() ==> desc_map(m, dts).contains_key((#[trigger] dts[i]).name@),
    decreases dts.len(),
{
    if dts.len() > 0 {
        let d = dts[0];
        let m1 = desc_add_type(m, d);
        assert(m1.contains_key(d.name@)) by {
            lemma_desc_add_type_preserves_contains(m, d, d.name@);
        }
        lemma_desc_map_preserves_contains(m1, dts.drop_first(), d.name@);
        lemma_desc_map_contains_type_names(m1, dts.drop_first());
        assert forall|i: int|
            0 <= i < dts.len() implies desc_map(m, dts).contains_key((#[trigger] dts[i]).name@) by {
            if i > 0 {
                assert(dts.drop_first()[i - 1] == dts[i]);
            }
        }
    }
}

proof fn lemma_desc_add_enum_preserves_contains(
    m: Map<Seq<char>, Seq<char>>,
    ms: Seq<MemberInfo>,
    k: Seq<char>,
)
    requires
        m.contains_key(k),
    ensures
        desc_add_enum_members(m, ms).contains_key(k),
    decreases ms.len(),
{
    if ms.len() > 0 {
        lemma_desc_add_enum_preserves_contains(m.insert(ms[0].name@, ms[0].desc@), ms.drop_first(), k);
    }
}

proof fn lemma_desc_add_fields_preserves_contains(
    m: Map<Seq<char>, Seq<char>>,
    owner: Seq<char>,
    ms: Seq<MemberInfo>,
    k: Seq<char>,
)
    requires
        m.contains_key(k),
    ensures
        desc_add_field_members(m, owner, ms).contains_key(k),
    decreases ms.len(),
{
    if ms.len() > 0 {
        lemma_desc_add_fields_preserves_contains(
            m.insert(field_key(owner, ms[0].name@), ms[0].desc@),
            owner,
            ms.drop_first(),
            k,
        );
    }
}

proof fn lemma_desc_add_funcs_preserves_contains(
    m: Map<Seq<char>, Seq<char>>,
    fs: Seq<FunctionInfo>,
    k: Seq<char>,
)
    requires
        m.contains_key(k),
    ensures
        desc_add_funcs(m, fs).contains_key(k),
    decreases fs.len(),
{
    if fs.len() > 0 {
        lemma_desc_add_funcs_preserves_contains(m.insert(fs[0].name@, fs[0].desc@), fs.drop_first(), k);
    }
}

proof fn lemma_desc_add_type_preserves_contains(
    m: Map<Seq<char>, Seq<char>>,
    dt: DataTypeInfo,
    k: Seq<char>,
)
    requires
        m.insert(dt.name@, dt.desc@).contains_key(k),
    ensures
        desc_add_type(m, dt).contains_key(k),
{
    let m1 = m.insert(dt.name@, dt.desc@);
    match dt.kind {
        DataKind::Enum => {
            lemma_desc_add_enum_preserves_contains(m1, dt.members@, k);
            lemma_desc_add_funcs_preserves_contains(desc_add_enum_members(m1, dt.members@), dt.functions@, k);
        },
        DataKind::Struct | DataKind::Union => {
            lemma_desc_add_fields_preserves_contains(m1, dt.name@, dt.members@, k);
            lemma_desc_add_funcs_preserves_contains(
                desc_add_field_members(m1, dt.name@, dt.members@),
                dt.functions@,
                k,
            );
        },
        DataKind::OpaqueStruct => {
            lemma_desc_add_funcs_preserves_contains(m1, dt.functions@, k);
        },
    }
}

proof fn lemma_desc_map_preserves_contains(
    m: Map<Seq<char>, Seq<char>>,
    dts: Seq<DataTypeInfo>,
    k: Seq<char>,
)
    requires
        m.contains_key(k),
    ensures
        desc_map(m, dts).contains_key(k),
    decreases dts.len(),
{
    if dts.len() > 0 {
        assert(desc_add_type(m, dts[0]).contains_key(k)) by {
            lemma_desc_add_type_preserves_contains(m, dts[0], k);
        }
        lemma_desc_map_preserves_contains(desc_add_type(m, dts[0]), dts.drop_first(), k);
    }
}

impl OdpicDoc {
    /// Every enum-kind entry's type name is a key of the description
    /// index, so the rewrite can extend its description in place.
    pub open spec fn enum_names_indexed(&self) -> bool {
        forall|i: int|
            0 <= i < self.data_types@.len() && (#[trigger] self.data_types@[i]).kind
                == DataKind::Enum ==> self.name_to_desc@.contains_key(self.data_types@[i].name@)
    }

    /// Rewrite the description index for every enum-kind entry: append
    /// the value table to the enum's own description and replace each
    /// constant's description by a cross-reference to its owner.
    pub fn rewrite_enum_descs(&mut self)
        requires
            old(self).wf(),
            old(self).enum_names_indexed(),
        ensures
            final(self).wf(),
            final(self).data_types == old(self).data_types,
            final(self).round_trips_map == old(self).round_trips_map,
            final(self).underlying_type_map == old(self).underlying_type_map,
            desc_view(final(self).name_to_desc@) == rewrite_descs(
                desc_view(old(self).name_to_desc@),
                old(self).data_types@,
            ),
    {
        let ghost all = old(self).data_types@;
        let ghost target = rewrite_descs(desc_view(old(self).name_to_desc@), all);
        proof {
            assert(all.skip(0) =~= all);
        }
        let n = self.data_types.len();
        let mut i: usize = 0;
        while i < n
            invariant
                n == all.len(),
                self.data_types == old(self).data_types,
                self.data_types@ == all,
                self.round_trips_map == old(self).round_trips_map,
                self.underlying_type_map == old(self).underlying_type_map,
                0 <= i <= n,
                self.name_to_desc.wf(),
                forall|x: int|
                    0 <= x < all.len() && (#[trigger] all[x]).kind == DataKind::Enum
                        ==> self.name_to_desc@.contains_key(all[x].name@),
                rewrite_descs(desc_view(self.name_to_desc@), all.skip(i as int)) == target,
            decreases n - i,
        {
            proof {
                assert(all.skip(i as int)[0] == all[i as int]);
                assert(all.skip(i as int).drop_first() =~= all.skip(i as int + 1));
            }
            let is_enum = match self.data_types[i].kind {
                DataKind::Enum => true,
                _ => false,
            };
            if is_enum {
                let ghost dt_g = all[i as int];
                let ghost ms = dt_g.members@;
                let ghost m_in = desc_view(self.name_to_desc@);
                // Build the new description of the enum type itself.
                let mut nd: String = match self.name_to_desc.get(self.data_types[i].name.as_str()) {
                    Some(s) => s.clone(),
                    None => {
                        proof {
                            assert(false);
                        }
                        String::new()
                    },
                };
                assert(nd@ == m_in[dt_g.name@]);
                nd.append("\n");
                nd.append("Value | Description\n");
                nd.append("---|---\n");
                let ghost head = m_in[dt_g.name@] + "\n"@ + "Value | Description\n"@ + "---|---\n"@;
                proof {
                    assert(ms.take(0) =~= Seq::<MemberInfo>::empty());
                }
                let member_count = self.data_types[i].members.len();
                let mut j: usize = 0;
                while j < member_count
                    invariant
                        member_count == ms.len(),
                        self.data_types@ == all,
                        0 <= i < all.len(),
                        all[i as int] == dt_g,
                        dt_g.members@ == ms,
                        0 <= j <= member_count,
                        nd@ == head + enum_table_rows(ms.take(j as int)),
                    decreases member_count - j,
                {
                    let mem = &self.data_types[i].members[j];
                    nd.append("`");
                    nd.append(mem.name.as_str());
                    nd.append("` | ");
                    let collapsed = collapse_newlines(mem.desc.as_str());
                    nd.append(collapsed.as_str());
                    nd.append("\n");
                    proof {
                        assert(ms.take(j as int + 1).drop_last() =~= ms.take(j as int));
                        assert(ms.take(j as int + 1).last() == ms[j as int]);
                    }
                    j += 1;
                }
                proof {
                    assert(ms.take(member_count as int) =~= ms);
                    assert(nd@ == m_in[dt_g.name@] + enum_table(ms));
                }
                let tname = self.data_types[i].name.clone();
                let ghost m0 = self.name_to_desc@;
                self.name_to_desc.insert(tname, nd);
                proof {
                    lemma_desc_view_insert(m0, dt_g.name@, nd);
                    assert(desc_view(self.name_to_desc@) == m_in.insert(
                        dt_g.name@,
                        m_in[dt_g.name@] + enum_table(ms),
                    ));
                    assert(ms.skip(0) =~= ms);
                }
                // Replace each constant's description by a cross-reference.
                let mut j: usize = 0;
                while j < member_count
                    invariant
                        member_count == ms.len(),
                        self.data_types == old(self).data_types,
                        self.data_types@ == all,
                        self.round_trips_map == old(self).round_trips_map,
                        self.underlying_type_map == old(self).underlying_type_map,
                        0 <= i < all.len(),
                        all[i as int] == dt_g,
                        dt_g.members@ == ms,
                        0 <= j <= member_count,
                        self.name_to_desc.wf(),
                        forall|x: int|
                            0 <= x < all.len() && (#[trigger] all[x]).kind == DataKind::Enum
                                ==> self.name_to_desc@.contains_key(all[x].name@),
                        rewrite_descs(
                            rewrite_members(
                                desc_view(self.name_to_desc@),
                                dt_g.name@,
                                ms.skip(j as int),
                            ),
                            all.skip(i as int + 1),
                        ) == target,
                    decreases member_count - j,
                {
                    proof {
                        assert(ms.skip(j as int)[0] == ms[j as int]);
                        assert(ms.skip(j as int).drop_first() =~= ms.skip(j as int + 1));
                    }
                    let mname = self.data_types[i].members[j].name.clone();
                    let see = String::from_str("See [`").concat(
                        self.data_types[i].name.as_str(),
                    ).concat("`]");
                    assert(see@ == see_ref(dt_g.name@));
                    let ghost m1 = self.name_to_desc@;
                    self.name_to_desc.insert(mname, see);
                    proof {
                        lemma_desc_view_insert(m1, ms[j as int].name@, see);
                    }
                    j += 1;
                }
                proof {
                    assert(ms.skip(member_count as int) =~= Seq::<MemberInfo>::empty());
                }
            }
            i += 1;
        }
        proof {
            assert(all.skip(n as int) =~= Seq::<DataTypeInfo>::empty());
        }
    }
}

} // verus!

//! Decoding of structured payload values into domain data: enum tags,
//! document metadata, and media representations.

use vstd::prelude::*;

use crate::document::{
    DocumentMetadata, DocumentMetadataV, KernelSpec, KernelSpecV, LanguageInfo, LanguageInfoV,
    MediaRepresentation, MediaRepresentationV, MetaEntry, MetaEntryV, RepEntry, RepEntryV,
};
use crate::value::{obj_get, EntryV, Value, ValueEntry, ValueV};

verus! {

/// A list of strings, when every element of the sequence is a string.
pub open spec fn spec_parse_str_items(items: Seq<ValueV>) -> Option<Seq<Seq<char>>>
    decreases items.len(),
{
    if items.len() == 0 {
        Some(Seq::empty())
    } else {
        match items[0] {
            ValueV::Str(s) => match spec_parse_str_items(items.skip(1)) {
                Some(rest) => Some(seq![s] + rest),
                None => None,
            },
            _ => None,
        }
    }
}

/// A list of strings, when the value is a sequence of strings.
pub open spec fn spec_parse_str_list(v: ValueV) -> Option<Seq<Seq<char>>> {
    match v {
        ValueV::Arr(items) => spec_parse_str_items(items),
        _ => None,
    }
}

/// A string-to-string mapping, when every entry's value is a string.
pub open spec fn spec_parse_meta_entries(entries: Seq<EntryV>) -> Option<Seq<MetaEntryV>>
    decreases entries.len(),
{
    if entries.len() == 0 {
        Some(Seq::empty())
    } else {
        match entries[0].value {
            ValueV::Str(s) => match spec_parse_meta_entries(entries.skip(1)) {
                Some(rest) => Some(seq![MetaEntryV { key: entries[0].key, value: s }] + rest),
                None => None,
            },
            _ => None,
        }
    }
}

/// A string-to-string mapping, when the value is such a mapping.
pub open spec fn spec_parse_str_map(v: ValueV) -> Option<Seq<MetaEntryV>> {
    match v {
        ValueV::Obj(entries) => spec_parse_meta_entries(entries),
        _ => None,
    }
}

/// A kernel specification: a mapping with `name`, `display_name` and
/// `language` strings.
pub open spec fn spec_parse_kernel(v: ValueV) -> Option<KernelSpecV> {
    match (
        crate::value::get_str(v, "name"@),
        crate::value::get_str(v, "display_name"@),
        crate::value::get_str(v, "language"@),
    ) {
        (Some(name), Some(display_name), Some(language)) => {
            if v is Obj {
                Some(KernelSpecV { name, display_name, language })
            } else {
                None
            }
        },
        _ => None,
    }
}

/// An optional string field: absent or null stands for nothing, a
/// string for itself, anything else refuses the whole decode.
pub open spec fn spec_opt_str_field(v: ValueV, key: Seq<char>) -> Option<Option<Seq<char>>> {
    match obj_get(v, key) {
        None => Some(None),
        Some(ValueV::Null) => Some(None),
        Some(ValueV::Str(s)) => Some(Some(s)),
        Some(_) => None,
    }
}

/// Language information: `name` and `version` strings, with optional
/// `mimetype` and `file_extension`.
pub open spec fn spec_parse_language(v: ValueV) -> Option<LanguageInfoV> {
    if !(v is Obj) {
        None
    } else {
        match (
            crate::value::get_str(v, "name"@),
            crate::value::get_str(v, "version"@),
            spec_opt_str_field(v, "mimetype"@),
            spec_opt_str_field(v, "file_extension"@),
        ) {
            (Some(name), Some(version), Some(mimetype), Some(file_extension)) => Some(
                LanguageInfoV { name, version, mimetype, file_extension },
            ),
            _ => None,
        }
    }
}

/// Document metadata: optional kernel and language sections, required
/// `authors`, `tags` and `custom` collections.
pub open spec fn spec_parse_metadata(v: ValueV) -> Option<DocumentMetadataV> {
    if !(v is Obj) {
        None
    } else {
        let kernel_spec: Option<Option<KernelSpecV>> = match obj_get(v, "kernel_spec"@) {
            None => Some(None),
            Some(ValueV::Null) => Some(None),
            Some(k) => match spec_parse_kernel(k) {
                Some(ks) => Some(Some(ks)),
                None => None,
            },
        };
        let language_info: Option<Option<LanguageInfoV>> = match obj_get(v, "language_info"@) {
            None => Some(None),
            Some(ValueV::Null) => Some(None),
            Some(l) => match spec_parse_language(l) {
                Some(li) => Some(Some(li)),
                None => None,
            },
        };
        let authors = match obj_get(v, "authors"@) {
            Some(a) => spec_parse_str_list(a),
            None => None,
        };
        let tags = match obj_get(v, "tags"@) {
            Some(t) => spec_parse_str_list(t),
            None => None,
        };
        let custom = match obj_get(v, "custom"@) {
            Some(c) => spec_parse_str_map(c),
            None => None,
        };
        match (kernel_spec, language_info, authors, tags, custom) {
            (Some(ks), Some(li), Some(au), Some(tg), Some(cu)) => Some(
                DocumentMetadataV {
                    kernel_spec: ks,
                    language_info: li,
                    authors: au,
                    tags: tg,
                    custom: cu,
                },
            ),
            _ => None,
        }
    }
}

/// An optional mapping field: absent or null stands for nothing, a
/// mapping for itself, anything else refuses the whole decode.
pub open spec fn spec_opt_obj_field(v: ValueV, key: Seq<char>) -> Option<Option<ValueV>> {
    match obj_get(v, key) {
        None => Some(None),
        Some(ValueV::Null) => Some(None),
        Some(m) => if m is Obj {
            Some(Some(m))
        } else {
            None
        },
    }
}

/// One media representation: a tagged mapping, `inline` carrying data
/// or `artifact` referencing a stored artifact.
pub open spec fn spec_parse_rep(v: ValueV) -> Option<MediaRepresentationV> {
    if !(v is Obj) {
        None
    } else {
        match crate::value::get_str(v, "type"@) {
            Some(tag) => {
                if tag == "inline"@ {
                    match (obj_get(v, "data"@), spec_opt_obj_field(v, "metadata"@)) {
                        (Some(data), Some(metadata)) => Some(
                            MediaRepresentationV::Inline { data, metadata },
                        ),
                        _ => None,
                    }
                } else if tag == "artifact"@ {
                    match (
                        crate::value::get_str(v, "artifact_id"@),
                        spec_opt_obj_field(v, "metadata"@),
                    ) {
                        (Some(artifact_id), Some(metadata)) => Some(
                            MediaRepresentationV::Artifact { artifact_id, metadata },
                        ),
                        _ => None,
                    }
                } else {
                    None
                }
            },
            None => None,
        }
    }
}

/// A mapping of media keys to representations.
pub open spec fn spec_parse_rep_entries(entries: Seq<EntryV>) -> Option<Seq<RepEntryV>>
    decreases entries.len(),
{
    if entries.len() == 0 {
        Some(Seq::empty())
    } else {
        match spec_parse_rep(entries[0].value) {
            Some(rep) => match spec_parse_rep_entries(entries.skip(1)) {
                Some(rest) => Some(seq![RepEntryV { key: entries[0].key, rep }] + rest),
                None => None,
            },
            None => None,
        }
    }
}

/// Media representations of an output, when the value is a mapping of
/// valid representations.
pub open spec fn spec_parse_reps(v: ValueV) -> Option<Seq<RepEntryV>> {
    match v {
        ValueV::Obj(entries) => spec_parse_rep_entries(entries),
        _ => None,
    }
}

/// String stored under a key of a mapping value.
pub fn get_str_field<'a>(v: &'a Value, key: &str) -> (r: Option<&'a str>)
    ensures
        match crate::value::get_str(v@, key@) {
            Some(s) => r matches Some(t) && t@ == s,
            None => r is None,
        },
{
    match v.get(key) {
        Some(x) => x.as_str(),
        None => None,
    }
}

/// Non-negative integer stored under a key of a mapping value.
pub fn get_u64_field(v: &Value, key: &str) -> (r: Option<u64>)
    ensures
        r == crate::value::get_u64(v@, key@),
{
    match v.get(key) {
        Some(x) => x.as_u64(),
        None => None,
    }
}

/// Integer stored under a key of a mapping value.
pub fn get_i64_field(v: &Value, key: &str) -> (r: Option<i64>)
    ensures
        r == crate::value::get_int(v@, key@),
{
    match v.get(key) {
        Some(x) => x.as_i64(),
        None => None,
    }
}

/// Boolean stored under a key of a mapping value.
pub fn get_bool_field(v: &Value, key: &str) -> (r: Option<bool>)
    ensures
        r == crate::value::get_bool(v@, key@),
{
    match v.get(key) {
        Some(x) => x.as_bool(),
        None => None,
    }
}

/// Whether a value is a mapping.
fn is_obj(v: &Value) -> (r: bool)
    ensures
        r == (v@ is Obj),
{
    match v {
        Value::Obj(_) => true,
        _ => false,
    }
}

/// Whether a value is null.
fn is_null(v: &Value) -> (r: bool)
    ensures
        r == (v@ is Null),
{
    match v {
        Value::Null => true,
        _ => false,
    }
}

/// Decode a list of strings.
fn parse_str_list(v: &Value) -> (r: Option<Vec<String>>)
    ensures
        match spec_parse_str_list(v@) {
            Some(sv) => r matches Some(out) && out.deep_view() == sv,
            None => r is None,
        },
{
    match v {
        Value::Arr(items) => {
            proof {
                crate::value::lemma_arr_view(*v, *items);
            }
            let ghost iv = v@->Arr_0;
            let n = items.len();
            let mut out: Vec<String> = Vec::new();
            let mut i: usize = 0;
            proof {
                assert(iv.skip(0) =~= iv);
                assert(out.deep_view() =~= Seq::<Seq<char>>::empty());
            }
            while i < n
                invariant
                    spec_parse_str_list(v@) == spec_parse_str_items(iv),
                    n == items@.len(),
                    iv.len() == n,
                    forall|j: int| 0 <= j < n ==> #[trigger] iv[j] == items@[j]@,
                    i <= n,
                    out.deep_view().len() == i,
                    spec_parse_str_items(iv) == match spec_parse_str_items(iv.skip(i as int)) {
                        Some(rest) => Some(out.deep_view() + rest),
                        None => None::<Seq<Seq<char>>>,
                    },
                decreases n - i,
            {
                proof {
                    assert(iv.skip(i as int)[0] == iv[i as int]);
                    assert(iv.skip(i as int).skip(1) =~= iv.skip(i + 1));
                }
                let ghost out0 = out.deep_view();
                match items[i].as_str() {
                    Some(s) => {
                        out.push(String::from_str(s));
                        proof {
                            assert(out.deep_view() =~= out0.push(s@));
                            if spec_parse_str_items(iv.skip(i + 1)) is Some {
                                let rest = spec_parse_str_items(iv.skip(i + 1)).unwrap();
                                assert(out0 + (seq![s@] + rest) =~= out.deep_view() + rest);
                            }
                        }
                    },
                    None => {
                        return None;
                    },
                }
                i = i + 1;
            }
            proof {
                assert(iv.skip(n as int).len() == 0);
                if spec_parse_str_items(iv) is Some {
                    assert(out.deep_view() + Seq::<Seq<char>>::empty() =~= out.deep_view());
                }
            }
            Some(out)
        },
        _ => None,
    }
}

/// Decode a string-to-string mapping.
fn parse_str_map(v: &Value) -> (r: Option<Vec<MetaEntry>>)
    ensures
        match spec_parse_str_map(v@) {
            Some(sv) => r matches Some(out) && out.deep_view() == sv,
            None => r is None,
        },
{
    match v {
        Value::Obj(entries) => {
            proof {
                crate::value::lemma_obj_view(*v, *entries);
            }
            let ghost ev = v@->Obj_0;
            let n = entries.len();
            let mut out: Vec<MetaEntry> = Vec::new();
            let mut i: usize = 0;
            proof {
                assert(ev.skip(0) =~= ev);
                assert(out.deep_view() =~= Seq::<MetaEntryV>::empty());
            }
            while i < n
                invariant
                    spec_parse_str_map(v@) == spec_parse_meta_entries(ev),
                    n == entries@.len(),
                    ev.len() == n,
                    forall|j: int|
                        0 <= j < n ==> #[trigger] ev[j] == (EntryV {
                            key: entries@[j].key@,
                            value: entries@[j].value@,
                        }),
                    i <= n,
                    out.deep_view().len() == i,
                    spec_parse_meta_entries(ev) == match spec_parse_meta_entries(
                        ev.skip(i as int),
                    ) {
                        Some(rest) => Some(out.deep_view() + rest),
                        None => None::<Seq<MetaEntryV>>,
                    },
                decreases n - i,
            {
                proof {
                    assert(ev.skip(i as int)[0] == ev[i as int]);
                    assert(ev.skip(i as int).skip(1) =~= ev.skip(i + 1));
                }
                let ghost out0 = out.deep_view();
                match entries[i].value.as_str() {
                    Some(s) => {
                        out.push(
                            MetaEntry { key: entries[i].key.clone(), value: String::from_str(s) },
                        );
                        proof {
                            let me = MetaEntryV { key: ev[i as int].key, value: s@ };
                            assert(out.deep_view() =~= out0.push(me));
                            if spec_parse_meta_entries(ev.skip(i + 1)) is Some {
                                let rest = spec_parse_meta_entries(ev.skip(i + 1)).unwrap();
                                assert(out0 + (seq![me] + rest) =~= out.deep_view() + rest);
                            }
                        }
                    },
                    None => {
                        return None;
                    },
                }
                i = i + 1;
            }
            proof {
                assert(ev.skip(n as int).len() == 0);
                if spec_parse_meta_entries(ev) is Some {
                    assert(out.deep_view() + Seq::<MetaEntryV>::empty() =~= out.deep_view());
                }
            }
            Some(out)
        },
        _ => None,
    }
}

/// Decode a kernel specification.
fn parse_kernel(v: &Value) -> (r: Option<KernelSpec>)
    ensures
        match spec_parse_kernel(v@) {
            Some(sv) => r matches Some(k) && k@ == sv,
            None => r is None,
        },
{
    if !is_obj(v) {
        return None;
    }
    let name = match get_str_field(v, "name") {
        Some(s) => String::from_str(s),
        None => {
            return None;
        },
    };
    let display_name = match get_str_field(v, "display_name") {
        Some(s) => String::from_str(s),
        None => {
            return None;
        },
    };
    let language = match get_str_field(v, "language") {
        Some(s) => String::from_str(s),
        None => {
            return None;
        },
    };
    Some(KernelSpec { name, display_name, language })
}

/// Decode an optional string field.
fn parse_opt_str_field(v: &Value, key: &str) -> (r: Option<Option<String>>)
    ensures
        match spec_opt_str_field(v@, key@) {
            Some(Some(s)) => r matches Some(o) && o matches Some(t) && t@ == s,
            Some(None) => r == Some(None::<String>),
            None => r is None,
        },
{
    match v.get(key) {
        None => Some(None),
        Some(x) => {
            if is_null(x) {
                Some(None)
            } else {
                match x.as_str() {
                    Some(s) => Some(Some(String::from_str(s))),
                    None => None,
                }
            }
        },
    }
}

/// Decode language information.
fn parse_language(v: &Value) -> (r: Option<LanguageInfo>)
    ensures
        match spec_parse_language(v@) {
            Some(sv) => r matches Some(l) && l@ == sv,
            None => r is None,
        },
{
    if !is_obj(v) {
        return None;
    }
    let name = match get_str_field(v, "name") {
        Some(s) => String::from_str(s),
        None => {
            return None;
        },
    };
    let version = match get_str_field(v, "version") {
        Some(s) => String::from_str(s),
        None => {
            return None;
        },
    };
    let mimetype = match parse_opt_str_field(v, "mimetype") {
        Some(o) => o,
        None => {
            return None;
        },
    };
    let file_extension = match parse_opt_str_field(v, "file_extension") {
        Some(o) => o,
        None => {
            return None;
        },
    };
    Some(LanguageInfo { name, version, mimetype, file_extension })
}

/// Decode document metadata; refuses a value of the wrong shape.
pub fn parse_metadata(v: &Value) -> (r: Option<DocumentMetadata>)
    ensures
        match spec_parse_metadata(v@) {
            Some(sv) => r matches Some(m) && m@ == sv,
            None => r is None,
        },
{
    if !is_obj(v) {
        return None;
    }
    let kernel_spec: Option<KernelSpec> = match v.get("kernel_spec") {
        None => None,
        Some(k) => {
            if is_null(k) {
                None
            } else {
                match parse_kernel(k) {
                    Some(ks) => Some(ks),
                    None => {
                        return None;
                    },
                }
            }
        },
    };
    let language_info: Option<LanguageInfo> = match v.get("language_info") {
        None => None,
        Some(l) => {
            if is_null(l) {
                None
            } else {
                match parse_language(l) {
                    Some(li) => Some(li),
                    None => {
                        return None;
                    },
                }
            }
        },
    };
    let authors = match v.get("authors") {
        Some(a) => match parse_str_list(a) {
            Some(out) => out,
            None => {
                return None;
            },
        },
        None => {
            return None;
        },
    };
    let tags = match v.get("tags") {
        Some(t) => match parse_str_list(t) {
            Some(out) => out,
            None => {
                return None;
            },
        },
        None => {
            return None;
        },
    };
    let custom = match v.get("custom") {
        Some(c) => match parse_str_map(c) {
            Some(out) => out,
            None => {
                return None;
            },
        },
        None => {
            return None;
        },
    };
    Some(DocumentMetadata { kernel_spec, language_info, authors, tags, custom })
}

/// Decode an optional mapping field.
fn parse_opt_obj_field(v: &Value, key: &str) -> (r: Option<Option<Value>>)
    ensures
        match spec_opt_obj_field(v@, key@) {
            Some(Some(m)) => r matches Some(o) && o matches Some(w) && w@ == m,
            Some(None) => r matches Some(o) && o is None,
            None => r is None,
        },
{
    match v.get(key) {
        None => Some(None),
        Some(x) => {
            if is_null(x) {
                Some(None)
            } else if is_obj(x) {
                Some(Some(x.clone()))
            } else {
                None
            }
        },
    }
}

/// Decode one media representation.
fn parse_rep(v: &Value) -> (r: Option<MediaRepresentation>)
    ensures
        match spec_parse_rep(v@) {
            Some(sv) => r matches Some(m) && m@ == sv,
            None => r is None,
        },
{
    if !is_obj(v) {
        return None;
    }
    let tag = match get_str_field(v, "type") {
        Some(t) => t,
        None => {
            return None;
        },
    };
    if crate::strutil::str_eq(tag, "inline") {
        let data = match v.get("data") {
            Some(d) => d.clone(),
            None => {
                return None;
            },
        };
        let metadata = match parse_opt_obj_field(v, "metadata") {
            Some(o) => o,
            None => {
                return None;
            },
        };
        Some(MediaRepresentation::Inline { data, metadata })
    } else if crate::strutil::str_eq(tag, "artifact") {
        let artifact_id = match get_str_field(v, "artifact_id") {
            Some(s) => String::from_str(s),
            None => {
                return None;
            },
        };
        let metadata = match parse_opt_obj_field(v, "metadata") {
            Some(o) => o,
            None => {
                return None;
            },
        };
        Some(MediaRepresentation::Artifact { artifact_id, metadata })
    } else {
        None
    }
}

/// Decode a mapping of media representations.
pub fn parse_reps(v: &Value) -> (r: Option<Vec<RepEntry>>)
    ensures
        match spec_parse_reps(v@) {
            Some(sv) => r matches Some(out) && out.deep_view() == sv,
            None => r is None,
        },
{
    match v {
        Value::Obj(entries) => {
            proof {
                crate::value::lemma_obj_view(*v, *entries);
            }
            let ghost ev = v@->Obj_0;
            let n = entries.len();
            let mut out: Vec<RepEntry> = Vec::new();
            let mut i: usize = 0;
            proof {
                assert(ev.skip(0) =~= ev);
                assert(out.deep_view() =~= Seq::<RepEntryV>::empty());
            }
            while i < n
                invariant
                    spec_parse_reps(v@) == spec_parse_rep_entries(ev),
                    n == entries@.len(),
                    ev.len() == n,
                    forall|j: int|
                        0 <= j < n ==> #[trigger] ev[j] == (EntryV {
                            key: entries@[j].key@,
                            value: entries@[j].value@,
                        }),
                    i <= n,
                    out.deep_view().len() == i,
                    spec_parse_rep_entries(ev) == match spec_parse_rep_entries(ev.skip(i as int)) {
                        Some(rest) => Some(out.deep_view() + rest),
                        None => None::<Seq<RepEntryV>>,
                    },
                decreases n - i,
            {
                proof {
                    assert(ev.skip(i as int)[0] == ev[i as int]);
                    assert(ev.skip(i as int).skip(1) =~= ev.skip(i + 1));
                }
                let ghost out0 = out.deep_view();
                match parse_rep(&entries[i].value) {
                    Some(rep) => {
                        out.push(RepEntry { key: entries[i].key.clone(), rep });
                        proof {
                            let re = RepEntryV {
                                key: ev[i as int].key,
                                rep: spec_parse_rep(ev[i as int].value).unwrap(),
                            };
                            assert(out.deep_view() =~= out0.push(re));
                            if spec_parse_rep_entries(ev.skip(i + 1)) is Some {
                                let rest = spec_parse_rep_entries(ev.skip(i + 1)).unwrap();
                                assert(out0 + (seq![re] + rest) =~= out.deep_view() + rest);
                            }
                        }
                    },
                    None => {
                        return None;
                    },
                }
                i = i + 1;
            }
            proof {
                assert(ev.skip(n as int).len() == 0);
                if spec_parse_rep_entries(ev) is Some {
                    assert(out.deep_view() + Seq::<RepEntryV>::empty() =~= out.deep_view());
                }
            }
            Some(out)
        },
        _ => None,
    }
}

} // verus!

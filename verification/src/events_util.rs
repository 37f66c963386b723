//! Convenience constructors for the notebook event kinds.

use vstd::prelude::*;

use crate::document::{
    CellType, DocumentMetadata, DocumentMetadataV, KernelSpecV, LanguageInfoV, MetaEntryV,
};
use crate::event::{Event, EventBuilder, EventError, EventResult};
use crate::strutil::is_blank;
use crate::value::{arr_value, obj_value, EntryV, Value, ValueEntry, ValueV};

verus! {

/// The payload value encoding a kernel specification.
pub open spec fn kernel_value(k: KernelSpecV) -> ValueV {
    ValueV::Obj(
        seq![
            EntryV { key: "name"@, value: ValueV::Str(k.name) },
            EntryV { key: "display_name"@, value: ValueV::Str(k.display_name) },
            EntryV { key: "language"@, value: ValueV::Str(k.language) },
        ],
    )
}

/// The payload value encoding language information.
pub open spec fn language_value(l: LanguageInfoV) -> ValueV {
    ValueV::Obj(
        seq![
            EntryV { key: "name"@, value: ValueV::Str(l.name) },
            EntryV { key: "version"@, value: ValueV::Str(l.version) },
            EntryV {
                key: "mimetype"@,
                value: match l.mimetype {
                    Some(m) => ValueV::Str(m),
                    None => ValueV::Null,
                },
            },
            EntryV {
                key: "file_extension"@,
                value: match l.file_extension {
                    Some(f) => ValueV::Str(f),
                    None => ValueV::Null,
                },
            },
        ],
    )
}

/// The payload value encoding document metadata.
pub open spec fn metadata_value(m: DocumentMetadataV) -> ValueV {
    ValueV::Obj(
        seq![
            EntryV {
                key: "kernel_spec"@,
                value: match m.kernel_spec {
                    Some(k) => kernel_value(k),
                    None => ValueV::Null,
                },
            },
            EntryV {
                key: "language_info"@,
                value: match m.language_info {
                    Some(l) => language_value(l),
                    None => ValueV::Null,
                },
            },
            EntryV {
                key: "authors"@,
                value: ValueV::Arr(Seq::new(m.authors.len(), |i: int| ValueV::Str(m.authors[i]))),
            },
            EntryV {
                key: "tags"@,
                value: ValueV::Arr(Seq::new(m.tags.len(), |i: int| ValueV::Str(m.tags[i]))),
            },
            EntryV {
                key: "custom"@,
                value: ValueV::Obj(
                    Seq::new(
                        m.custom.len(),
                        |i: int| EntryV {
                            key: m.custom[i].key,
                            value: ValueV::Str(m.custom[i].value),
                        },
                    ),
                ),
            },
        ],
    )
}

/// Encode document metadata as a payload value.
pub fn encode_metadata(m: &DocumentMetadata) -> (r: Value)
    ensures
        r@ == metadata_value(m@),
{
    let kernel_spec = match &m.kernel_spec {
        Some(k) => {
            let mut fields: Vec<ValueEntry> = Vec::new();
            fields.push(
                ValueEntry { key: String::from_str("name"), value: Value::Str(k.name.clone()) },
            );
            fields.push(
                ValueEntry {
                    key: String::from_str("display_name"),
                    value: Value::Str(k.display_name.clone()),
                },
            );
            fields.push(
                ValueEntry {
                    key: String::from_str("language"),
                    value: Value::Str(k.language.clone()),
                },
            );
            let v = obj_value(fields);
            proof {
                let target = seq![
                    EntryV { key: "name"@, value: ValueV::Str(k.name@) },
                    EntryV { key: "display_name"@, value: ValueV::Str(k.display_name@) },
                    EntryV { key: "language"@, value: ValueV::Str(k.language@) },
                ];
                assert(v@->Obj_0 =~= target);
                assert(v@ == ValueV::Obj(target));
                assert(v@ == kernel_value(m@.kernel_spec.unwrap()));
            }
            v
        },
        None => Value::Null,
    };
    let language_info = match &m.language_info {
        Some(l) => {
            let mut fields: Vec<ValueEntry> = Vec::new();
            fields.push(
                ValueEntry { key: String::from_str("name"), value: Value::Str(l.name.clone()) },
            );
            fields.push(
                ValueEntry {
                    key: String::from_str("version"),
                    value: Value::Str(l.version.clone()),
                },
            );
            let mimetype_value = match &l.mimetype {
                Some(mt) => Value::Str(mt.clone()),
                None => Value::Null,
            };
            proof {
                assert(mimetype_value@ == (match l.mimetype.deep_view() {
                    Some(mt) => ValueV::Str(mt),
                    None => ValueV::Null,
                }));
            }
            fields.push(
                ValueEntry { key: String::from_str("mimetype"), value: mimetype_value },
            );
            let file_extension_value = match &l.file_extension {
                Some(fe) => Value::Str(fe.clone()),
                None => Value::Null,
            };
            proof {
                assert(file_extension_value@ == (match l.file_extension.deep_view() {
                    Some(fe) => ValueV::Str(fe),
                    None => ValueV::Null,
                }));
            }
            fields.push(
                ValueEntry { key: String::from_str("file_extension"), value: file_extension_value },
            );
            let v = obj_value(fields);
            proof {
                let target = seq![
                    EntryV { key: "name"@, value: ValueV::Str(l.name@) },
                    EntryV { key: "version"@, value: ValueV::Str(l.version@) },
                    EntryV {
                        key: "mimetype"@,
                        value: match l.mimetype.deep_view() {
                            Some(mt) => ValueV::Str(mt),
                            None => ValueV::Null,
                        },
                    },
                    EntryV {
                        key: "file_extension"@,
                        value: match l.file_extension.deep_view() {
                            Some(fe) => ValueV::Str(fe),
                            None => ValueV::Null,
                        },
                    },
                ];
                assert(v@->Obj_0 =~= target);
                assert(v@ == ValueV::Obj(target));
                assert(m@.language_info == Some(l@));
                assert(target =~= language_value(l@)->Obj_0);
                assert(v@ == language_value(l@));
                assert(v@ == language_value(m@.language_info.unwrap()));
            }
            v
        },
        None => Value::Null,
    };

    let mut author_items: Vec<Value> = Vec::new();
    let an = m.authors.len();
    let mut i: usize = 0;
    while i < an
        invariant
            an == m.authors@.len(),
            i <= an,
            author_items@.len() == i,
            forall|j: int|
                0 <= j < i ==> #[trigger] author_items@[j]@ == ValueV::Str(m.authors@[j]@),
        decreases an - i,
    {
        author_items.push(Value::Str(m.authors[i].clone()));
        i = i + 1;
    }
    let authors = arr_value(author_items);
    proof {
        let at1 = Seq::new(m@.authors.len(), |i: int| ValueV::Str(m@.authors[i]));
        assert(authors@->Arr_0 =~= at1);
        assert(authors@ == ValueV::Arr(at1));
    }

    let mut tag_items: Vec<Value> = Vec::new();
    let tn = m.tags.len();
    let mut j: usize = 0;
    while j < tn
        invariant
            tn == m.tags@.len(),
            j <= tn,
            tag_items@.len() == j,
            forall|k: int| 0 <= k < j ==> #[trigger] tag_items@[k]@ == ValueV::Str(m.tags@[k]@),
        decreases tn - j,
    {
        tag_items.push(Value::Str(m.tags[j].clone()));
        j = j + 1;
    }
    let tags = arr_value(tag_items);
    proof {
        let tt1 = Seq::new(m@.tags.len(), |i: int| ValueV::Str(m@.tags[i]));
        assert(tags@->Arr_0 =~= tt1);
        assert(tags@ == ValueV::Arr(tt1));
    }

    let mut custom_entries: Vec<ValueEntry> = Vec::new();
    let cn = m.custom.len();
    let mut k: usize = 0;
    while k < cn
        invariant
            cn == m.custom@.len(),
            k <= cn,
            custom_entries@.len() == k,
            forall|t: int|
                0 <= t < k ==> #[trigger] custom_entries@[t].key@ == m.custom@[t].key@
                    && custom_entries@[t].value@ == ValueV::Str(m.custom@[t].value@),
        decreases cn - k,
    {
        custom_entries.push(
            ValueEntry { key: m.custom[k].key.clone(), value: Value::Str(m.custom[k].value.clone()) },
        );
        k = k + 1;
    }
    let custom = obj_value(custom_entries);
    proof {
        let ct1 = Seq::new(
            m@.custom.len(),
            |i: int| EntryV { key: m@.custom[i].key, value: ValueV::Str(m@.custom[i].value) },
        );
        assert(custom@->Obj_0 =~= ct1);
        assert(custom@ == ValueV::Obj(ct1));
    }

    let mut fields: Vec<ValueEntry> = Vec::new();
    fields.push(ValueEntry { key: String::from_str("kernel_spec"), value: kernel_spec });
    fields.push(ValueEntry { key: String::from_str("language_info"), value: language_info });
    fields.push(ValueEntry { key: String::from_str("authors"), value: authors });
    fields.push(ValueEntry { key: String::from_str("tags"), value: tags });
    fields.push(ValueEntry { key: String::from_str("custom"), value: custom });
    let ghost gkernel = kernel_spec@;
    let ghost glang = language_info@;
    let ghost gauthors = authors@;
    let ghost gtags = tags@;
    let ghost gcustom = custom@;
    let r = obj_value(fields);
    proof {
        let mvs = metadata_value(m@)->Obj_0;
        // the collection payloads match the encoding's own shape
        assert(mvs[2].value->Arr_0 =~= gauthors->Arr_0);
        assert(mvs[2].value == gauthors);
        assert(mvs[3].value->Arr_0 =~= gtags->Arr_0);
        assert(mvs[3].value == gtags);
        assert(mvs[4].value->Obj_0 =~= gcustom->Obj_0);
        assert(mvs[4].value == gcustom);
        assert(mvs[0].value == gkernel);
        assert(mvs[1].value == glang);
        assert(r@->Obj_0 =~= mvs);
        assert(r@ == ValueV::Obj(mvs));
        assert(r@ == metadata_value(m@));
    }
    r
}

/// The tag naming a cell type on the wire.
pub open spec fn cell_type_tag(cell_type: CellType) -> Seq<char> {
    match cell_type {
        CellType::Code => "code"@,
        CellType::Markdown => "markdown"@,
        CellType::Sql => "sql"@,
        CellType::Ai => "ai"@,
        CellType::Raw => "raw"@,
    }
}

/// Name a cell type for the wire.
pub fn cell_type_to_tag(cell_type: CellType) -> (r: String)
    ensures
        r@ == cell_type_tag(cell_type),
{
    match cell_type {
        CellType::Code => String::from_str("code"),
        CellType::Markdown => String::from_str("markdown"),
        CellType::Sql => String::from_str("sql"),
        CellType::Ai => String::from_str("ai"),
        CellType::Raw => String::from_str("raw"),
    }
}

/// Create a `DocumentCreated` event for a document.
pub fn create_document_event(
    document_id: &str,
    title: &str,
    metadata: &DocumentMetadata,
    version: i64,
) -> (r: EventResult<Event>)
    ensures
        r is Ok <==> !is_blank(document_id@) && version >= 1,
        r matches Ok(e) ==> {
            &&& e.event_type@ == "DocumentCreated"@
            &&& e.aggregate_id@ == document_id@
            &&& e.version == version
            &&& e.payload@ == ValueV::Obj(
                seq![
                    EntryV { key: "title"@, value: ValueV::Str(title@) },
                    EntryV { key: "metadata"@, value: metadata_value(metadata@) },
                ],
            )
        },
{
    proof {
        reveal_strlit("DocumentCreated");
        assert(!is_blank("DocumentCreated"@)) by {
            assert("DocumentCreated"@[0] == 'D');
        }
    }
    let mut fields: Vec<ValueEntry> = Vec::new();
    fields.push(
        ValueEntry { key: String::from_str("title"), value: Value::Str(String::from_str(title)) },
    );
    fields.push(ValueEntry { key: String::from_str("metadata"), value: encode_metadata(metadata) });
    let payload = obj_value(fields);
    proof {
        let target = seq![
                EntryV { key: "title"@, value: ValueV::Str(title@) },
                EntryV { key: "metadata"@, value: metadata_value(metadata@) },
        ];
        assert(payload@->Obj_0 =~= target);
        assert(payload@ == ValueV::Obj(target));
    }
    match EventBuilder::new().event_type("DocumentCreated").aggregate_id(document_id).payload(
        payload,
    ) {
        Ok(b) => b.build(version),
        Err(e) => Err(e),
    }
}

/// Create a `CellCreated` event for a cell of a document.
pub fn create_cell_event(
    document_id: &str,
    cell_id: &str,
    cell_type: CellType,
    source: &str,
    fractional_index: Option<&str>,
    created_by: &str,
    version: i64,
) -> (r: EventResult<Event>)
    ensures
        r is Ok <==> !is_blank(document_id@) && version >= 1,
        r matches Ok(e) ==> {
            &&& e.event_type@ == "CellCreated"@
            &&& e.aggregate_id@ == document_id@
            &&& e.version == version
            &&& e.payload@ == (match fractional_index {
                Some(fi) => ValueV::Obj(
                    seq![
                        EntryV { key: "cell_id"@, value: ValueV::Str(cell_id@) },
                        EntryV { key: "cell_type"@, value: ValueV::Str(cell_type_tag(cell_type)) },
                        EntryV { key: "source"@, value: ValueV::Str(source@) },
                        EntryV { key: "created_by"@, value: ValueV::Str(created_by@) },
                        EntryV { key: "fractional_index"@, value: ValueV::Str(fi@) },
                    ],
                ),
                None => ValueV::Obj(
                    seq![
                        EntryV { key: "cell_id"@, value: ValueV::Str(cell_id@) },
                        EntryV { key: "cell_type"@, value: ValueV::Str(cell_type_tag(cell_type)) },
                        EntryV { key: "source"@, value: ValueV::Str(source@) },
                        EntryV { key: "created_by"@, value: ValueV::Str(created_by@) },
                    ],
                ),
            })
        },
{
    proof {
        reveal_strlit("CellCreated");
        assert(!is_blank("CellCreated"@)) by {
            assert("CellCreated"@[0] == 'C');
        }
    }
    let mut fields: Vec<ValueEntry> = Vec::new();
    fields.push(
        ValueEntry {
            key: String::from_str("cell_id"),
            value: Value::Str(String::from_str(cell_id)),
        },
    );
    fields.push(
        ValueEntry {
            key: String::from_str("cell_type"),
            value: Value::Str(cell_type_to_tag(cell_type)),
        },
    );
    fields.push(
        ValueEntry { key: String::from_str("source"), value: Value::Str(String::from_str(source)) },
    );
    fields.push(
        ValueEntry {
            key: String::from_str("created_by"),
            value: Value::Str(String::from_str(created_by)),
        },
    );
    match fractional_index {
        Some(fi) => {
            fields.push(
                ValueEntry {
                    key: String::from_str("fractional_index"),
                    value: Value::Str(String::from_str(fi)),
                },
            );
            let payload = obj_value(fields);
            proof {
                let target = seq![
                    EntryV { key: "cell_id"@, value: ValueV::Str(cell_id@) },
                    EntryV { key: "cell_type"@, value: ValueV::Str(cell_type_tag(cell_type)) },
                    EntryV { key: "source"@, value: ValueV::Str(source@) },
                    EntryV { key: "created_by"@, value: ValueV::Str(created_by@) },
                    EntryV { key: "fractional_index"@, value: ValueV::Str(fi@) },
                ];
                assert(payload@->Obj_0 =~= target);
                assert(payload@ == ValueV::Obj(target));
            }
            match EventBuilder::new().event_type("CellCreated").aggregate_id(
                document_id,
            ).payload(payload) {
                Ok(b) => b.build(version),
                Err(e) => Err(e),
            }
        },
        None => {
            let payload = obj_value(fields);
            proof {
                let target = seq![
                    EntryV { key: "cell_id"@, value: ValueV::Str(cell_id@) },
                    EntryV { key: "cell_type"@, value: ValueV::Str(cell_type_tag(cell_type)) },
                    EntryV { key: "source"@, value: ValueV::Str(source@) },
                    EntryV { key: "created_by"@, value: ValueV::Str(created_by@) },
                ];
                assert(payload@->Obj_0 =~= target);
                assert(payload@ == ValueV::Obj(target));
            }
            match EventBuilder::new().event_type("CellCreated").aggregate_id(
                document_id,
            ).payload(payload) {
                Ok(b) => b.build(version),
                Err(e) => Err(e),
            }
        },
    }
}

/// Create a `CellSourceUpdated` event for a cell of a document.
pub fn update_cell_source_event(
    document_id: &str,
    cell_id: &str,
    source: &str,
    version: i64,
) -> (r: EventResult<Event>)
    ensures
        r is Ok <==> !is_blank(document_id@) && version >= 1,
        r matches Ok(e) ==> {
            &&& e.event_type@ == "CellSourceUpdated"@
            &&& e.aggregate_id@ == document_id@
            &&& e.version == version
            &&& e.payload@ == ValueV::Obj(
                seq![
                    EntryV { key: "cell_id"@, value: ValueV::Str(cell_id@) },
                    EntryV { key: "source"@, value: ValueV::Str(source@) },
                ],
            )
        },
{
    proof {
        reveal_strlit("CellSourceUpdated");
        assert(!is_blank("CellSourceUpdated"@)) by {
            assert("CellSourceUpdated"@[0] == 'C');
        }
    }
    let mut fields: Vec<ValueEntry> = Vec::new();
    fields.push(
        ValueEntry {
            key: String::from_str("cell_id"),
            value: Value::Str(String::from_str(cell_id)),
        },
    );
    fields.push(
        ValueEntry { key: String::from_str("source"), value: Value::Str(String::from_str(source)) },
    );
    let payload = obj_value(fields);
    proof {
        let target = seq![
                EntryV { key: "cell_id"@, value: ValueV::Str(cell_id@) },
                EntryV { key: "source"@, value: ValueV::Str(source@) },
        ];
        assert(payload@->Obj_0 =~= target);
        assert(payload@ == ValueV::Obj(target));
    }
    match EventBuilder::new().event_type("CellSourceUpdated").aggregate_id(document_id).payload(
        payload,
    ) {
        Ok(b) => b.build(version),
        Err(e) => Err(e),
    }
}

/// Create a `CellMoved` event for a cell of a document.
pub fn move_cell_event(
    document_id: &str,
    cell_id: &str,
    fractional_index: &str,
    version: i64,
) -> (r: EventResult<Event>)
    ensures
        r is Ok <==> !is_blank(document_id@) && version >= 1,
        r matches Ok(e) ==> {
            &&& e.event_type@ == "CellMoved"@
            &&& e.aggregate_id@ == document_id@
            &&& e.version == version
            &&& e.payload@ == ValueV::Obj(
                seq![
                    EntryV { key: "cell_id"@, value: ValueV::Str(cell_id@) },
                    EntryV { key: "fractional_index"@, value: ValueV::Str(fractional_index@) },
                ],
            )
        },
{
    proof {
        reveal_strlit("CellMoved");
        assert(!is_blank("CellMoved"@)) by {
            assert("CellMoved"@[0] == 'C');
        }
    }
    let mut fields: Vec<ValueEntry> = Vec::new();
    fields.push(
        ValueEntry {
            key: String::from_str("cell_id"),
            value: Value::Str(String::from_str(cell_id)),
        },
    );
    fields.push(
        ValueEntry {
            key: String::from_str("fractional_index"),
            value: Value::Str(String::from_str(fractional_index)),
        },
    );
    let payload = obj_value(fields);
    proof {
        let target = seq![
                EntryV { key: "cell_id"@, value: ValueV::Str(cell_id@) },
                EntryV { key: "fractional_index"@, value: ValueV::Str(fractional_index@) },
        ];
        assert(payload@->Obj_0 =~= target);
        assert(payload@ == ValueV::Obj(target));
    }
    match EventBuilder::new().event_type("CellMoved").aggregate_id(document_id).payload(payload) {
        Ok(b) => b.build(version),
        Err(e) => Err(e),
    }
}

} // verus!

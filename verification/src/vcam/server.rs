//! What the cameras' DLL decides as a COM server: which classes it makes, and what it writes into the registry, where
//! the DirectShow filter and the Media Foundation source each have a class.
use vstd::prelude::*;

use crate::framebuf::{DSHOW_FILTER_CLSID, MF_SOURCE_CLSID};
use crate::vcam::media::Guid;
use crate::vcam::windows::{filter_name, friendly_name};

verus! {

pub const FILTER_CLSID: Guid = 0xBEEE_F45F_D1F1_4A35_8F7D_17E7_56BC_2046;

pub const SOURCE_CLSID: Guid = 0x5F0F_9024_D043_45C1_B2F6_03DA_B6CE_130A;

/// A class of the DLL.
#[derive(Clone, Copy, Debug, PartialEq, Eq, Structural)]
pub enum Class {
    /// The DirectShow filter.
    Filter,
    /// The Media Foundation source.
    Source,
}

/// Why an object is not made.
#[derive(Clone, Copy, Debug, PartialEq, Eq, Structural)]
pub enum ServerRefusal {
    Pointer,
    ClassNotAvailable,
    NoAggregation,
}

/// The class with a number.
pub open spec fn class_with(clsid: Guid) -> Option<Class> {
    if clsid == FILTER_CLSID {
        Some(Class::Filter)
    } else if clsid == SOURCE_CLSID {
        Some(Class::Source)
    } else {
        None
    }
}

/// The class whose factory a host asks for. `pointers`: all that it has to hand over is there.
pub fn class_object(pointers: bool, clsid: Guid) -> (r: Result<Class, ServerRefusal>)
    ensures
        r == (match class_with(clsid) {
            _ if !pointers => Err(ServerRefusal::Pointer),
            Some(c) => Ok::<Class, ServerRefusal>(c),
            None => Err(ServerRefusal::ClassNotAvailable),
        }),
{
    if !pointers {
        return Err(ServerRefusal::Pointer);
    }
    if clsid == FILTER_CLSID {
        Ok(Class::Filter)
    } else if clsid == SOURCE_CLSID {
        Ok(Class::Source)
    } else {
        Err(ServerRefusal::ClassNotAvailable)
    }
}

/// Whether a factory makes an object: not as a part of another one.
pub fn instance(pointers: bool, outer: bool) -> (r: Result<(), ServerRefusal>)
    ensures
        r == (if !pointers {
            Err(ServerRefusal::Pointer)
        } else if outer {
            Err(ServerRefusal::NoAggregation)
        } else {
            Ok::<(), ServerRefusal>(())
        }),
{
    if !pointers {
        Err(ServerRefusal::Pointer)
    } else if outer {
        Err(ServerRefusal::NoAggregation)
    } else {
        Ok(())
    }
}

/// A text in the registry, below the root of all classes: the value with this name of this key, an empty name standing
/// for the key's own value.
pub struct Entry {
    pub key: String,
    pub name: String,
    pub value: String,
}

#[verifier::ext_equal]
pub struct EntryText {
    pub key: Seq<char>,
    pub name: Seq<char>,
    pub value: Seq<char>,
}

impl View for Entry {
    type V = EntryText;

    open spec fn view(&self) -> EntryText {
        EntryText { key: self.key@, name: self.name@, value: self.value@ }
    }
}

/// The key of a class.
pub open spec fn class_key(clsid: Seq<char>) -> Seq<char> {
    "CLSID\\"@ + clsid
}

/// What is written for a class: its name, the DLL that holds it, and that any thread may use it.
pub open spec fn class_entries(clsid: Seq<char>, name: Seq<char>, dll: Seq<char>) -> Seq<EntryText> {
    let key = class_key(clsid);
    seq![
        EntryText { key, name: ""@, value: name },
        EntryText { key: key + "\\InprocServer32"@, name: ""@, value: dll },
        EntryText { key: key + "\\InprocServer32"@, name: "ThreadingModel"@, value: "Both"@ },
    ]
}

/// What a list of entries stands for.
pub open spec fn entry_texts(es: Seq<Entry>) -> Seq<EntryText> {
    es.map_values(|e: Entry| e@)
}

fn joined(a: &str, b: &str, c: &str) -> (t: String)
    ensures
        t@ == a@ + b@ + c@,
{
    let mut t = String::new();
    t.append(a);
    t.append(b);
    t.append(c);
    assert(t@ =~= a@ + b@ + c@);
    t
}

fn owned(a: &str) -> (t: String)
    ensures
        t@ == a@,
{
    let mut t = String::new();
    t.append(a);
    assert(t@ =~= a@);
    t
}

fn push_class(out: &mut Vec<Entry>, clsid: &str, name: &str, dll: &str)
    ensures
        entry_texts(final(out)@) == entry_texts(old(out)@) + class_entries(clsid@, name@, dll@),
{
    let key = joined("CLSID\\", clsid, "");
    proof {
        reveal_strlit("");
    }
    assert(key@ =~= class_key(clsid@));
    let server = joined("CLSID\\", clsid, "\\InprocServer32");
    let again = joined("CLSID\\", clsid, "\\InprocServer32");
    out.push(Entry { key, name: owned(""), value: owned(name) });
    out.push(Entry { key: server, name: owned(""), value: owned(dll) });
    out.push(Entry { key: again, name: owned("ThreadingModel"), value: owned("Both") });
    assert(entry_texts(out@) =~= entry_texts(old(out)@) + class_entries(clsid@, name@, dll@));
}

/// What registering writes, for a DLL at `dll`: the filter's class, and the source's.
pub fn registration(dll: &str, has_mf: bool) -> (r: Vec<Entry>)
    ensures
        entry_texts(r@) == class_entries(DSHOW_FILTER_CLSID@, filter_name(has_mf), dll@) + class_entries(
            MF_SOURCE_CLSID@,
            "Lenny"@,
            dll@,
        ),
{
    let mut r: Vec<Entry> = Vec::new();
    push_class(&mut r, DSHOW_FILTER_CLSID, friendly_name(has_mf), dll);
    push_class(&mut r, MF_SOURCE_CLSID, "Lenny", dll);
    assert(entry_texts(Seq::<Entry>::empty()) =~= Seq::empty());
    assert(entry_texts(r@) =~= class_entries(DSHOW_FILTER_CLSID@, filter_name(has_mf), dll@) + class_entries(
        MF_SOURCE_CLSID@,
        "Lenny"@,
        dll@,
    ));
    r
}

/// The keys that unregistering deletes, with all below them.
pub fn registered_keys() -> (r: (String, String))
    ensures
        r.0@ == class_key(DSHOW_FILTER_CLSID@),
        r.1@ == class_key(MF_SOURCE_CLSID@),
{
    proof {
        reveal_strlit("");
    }
    let filter = joined("CLSID\\", DSHOW_FILTER_CLSID, "");
    let source = joined("CLSID\\", MF_SOURCE_CLSID, "");
    assert(filter@ =~= class_key(DSHOW_FILTER_CLSID@));
    assert(source@ =~= class_key(MF_SOURCE_CLSID@));
    (filter, source)
}

/// Whether `key` is `top` or lies below it.
pub open spec fn is_below(top: Seq<char>, key: Seq<char>) -> bool {
    key == top || top.push('\\').is_prefix_of(key)
}

/// Unregistering takes away all that registering wrote.
pub proof fn law_unregistering_leaves_nothing(dll: Seq<char>, has_mf: bool, i: int)
    requires
        0 <= i < 6,
    ensures
        ({
            let written = class_entries(DSHOW_FILTER_CLSID@, filter_name(has_mf), dll) + class_entries(
                MF_SOURCE_CLSID@,
                "Lenny"@,
                dll,
            );
            &&& written.len() == 6
            &&& is_below(class_key(DSHOW_FILTER_CLSID@), written[i].key) || is_below(
                class_key(MF_SOURCE_CLSID@),
                written[i].key,
            )
        }),
{
    reveal_strlit("\\InprocServer32");
    let written = class_entries(DSHOW_FILTER_CLSID@, filter_name(has_mf), dll) + class_entries(
        MF_SOURCE_CLSID@,
        "Lenny"@,
        dll,
    );
    let top = if i < 3 {
        class_key(DSHOW_FILTER_CLSID@)
    } else {
        class_key(MF_SOURCE_CLSID@)
    };
    if i != 0 && i != 3 {
        assert(written[i].key == top + "\\InprocServer32"@);
        assert(top.push('\\') =~= written[i].key.take(top.len() as int + 1));
    }
}

} // verus!

use vstd::prelude::*;
use vstd::string::StringExecFns;

verus! {

/// A JSON value. A number is held as its decimal text.
#[derive(Debug)]
pub enum JsonValue {
    Null,
    Bool(bool),
    Number(String),
    Str(String),
    Array(Vec<JsonValue>),
    Object(Vec<(String, JsonValue)>),
}

/// The value of the first field named `key`.
pub open spec fn field(fs: Seq<(String, JsonValue)>, key: Seq<char>) -> Option<JsonValue>
    decreases fs.len(),
{
    if fs.len() == 0 {
        None
    } else if fs[0].0@ == key {
        Some(fs[0].1)
    } else {
        field(fs.drop_first(), key)
    }
}

/// The fields of an object; none for anything else.
pub open spec fn fields_of(v: Option<JsonValue>) -> Seq<(String, JsonValue)> {
    match v {
        Some(JsonValue::Object(fs)) => fs@,
        _ => Seq::empty(),
    }
}

/// The member `key` of an object; nothing for anything else.
pub open spec fn member(v: Option<JsonValue>, key: Seq<char>) -> Option<JsonValue> {
    field(fields_of(v), key)
}

/// The text of a string value.
pub open spec fn text_of(v: Option<JsonValue>) -> Option<Seq<char>> {
    match v {
        Some(JsonValue::Str(s)) => Some(s@),
        _ => None,
    }
}

/// `fs` without any field named `key`.
pub open spec fn without(fs: Seq<(String, JsonValue)>, key: Seq<char>) -> Seq<(String, JsonValue)>
    decreases fs.len(),
{
    if fs.len() == 0 {
        fs
    } else if fs[0].0@ == key {
        without(fs.drop_first(), key)
    } else {
        seq![fs[0]] + without(fs.drop_first(), key)
    }
}

/// Removing the fields named `key` hides that name and leaves every other one as it was.
pub proof fn lemma_without_field(fs: Seq<(String, JsonValue)>, key: Seq<char>, other: Seq<char>)
    ensures
        field(without(fs, key), key) is None,
        other != key ==> field(without(fs, key), other) == field(fs, other),
    decreases fs.len(),
{
    if fs.len() > 0 {
        lemma_without_field(fs.drop_first(), key, other);
        if fs[0].0@ != key {
            let w = seq![fs[0]] + without(fs.drop_first(), key);
            assert(w.drop_first() =~= without(fs.drop_first(), key));
        }
    }
}

/// Removes every field named `key`, and returns the value of the first.
pub fn take_field(fs: &mut Vec<(String, JsonValue)>, key: &str) -> (r: Option<JsonValue>)
    ensures
        r == field(old(fs)@, key@),
        final(fs)@ == without(old(fs)@, key@),
{
    let k = String::from_str(key);
    let mut rest: Vec<(String, JsonValue)> = Vec::new();
    std::mem::swap(fs, &mut rest);
    let ghost orig = rest@;
    let mut found: Option<JsonValue> = None;
    while rest.len() > 0
        invariant
            k@ == key@,
            without(orig, key@) == fs@ + without(rest@, key@),
            found is None ==> field(orig, key@) == field(rest@, key@),
            found is Some ==> field(orig, key@) == found,
        decreases rest@.len(),
    {
        let ghost before = rest@;
        let (name, value) = rest.remove(0);
        assert(before.drop_first() =~= rest@);
        if name == k {
            if found.is_none() {
                found = Some(value);
            }
        } else {
            let ghost f0 = fs@;
            fs.push((name, value));
            assert(fs@ + without(rest@, key@) =~= f0 + (seq![before[0]] + without(rest@, key@)));
        }
    }
    assert(fs@ + without(rest@, key@) =~= fs@);
    found
}

/// Whether `k` is one of `keys`.
pub open spec fn listed(keys: Seq<&str>, k: Seq<char>) -> bool {
    exists|i: int| 0 <= i < keys.len() && keys[i]@ == k
}

/// No key is listed twice.
pub open spec fn distinct_keys(keys: Seq<&str>) -> bool {
    forall|i: int, j: int| 0 <= i < keys.len() && 0 <= j < keys.len() && i != j ==> keys[i]@ != keys[j]@
}

/// Removes every field named by one of `keys`, and returns, for each key in turn, the
/// value of the first field of that name.
pub fn take_fields(fs: &mut Vec<(String, JsonValue)>, keys: &Vec<&str>) -> (r: Vec<Option<JsonValue>>)
    requires
        distinct_keys(keys@),
    ensures
        r@.len() == keys@.len(),
        forall|i: int| 0 <= i < keys@.len() ==> r@[i] == field(old(fs)@, keys@[i]@),
        forall|k: Seq<char>|
            #[trigger] field(final(fs)@, k) == if listed(keys@, k) {
                None
            } else {
                field(old(fs)@, k)
            },
{
    let ghost orig = fs@;
    let mut r: Vec<Option<JsonValue>> = Vec::new();
    let mut i: usize = 0;
    while i < keys.len()
        invariant
            distinct_keys(keys@),
            i <= keys@.len(),
            r@.len() == i,
            forall|j: int| 0 <= j < i ==> r@[j] == field(orig, keys@[j]@),
            forall|k: Seq<char>|
                #[trigger] field(fs@, k) == if listed(keys@.subrange(0, i as int), k) {
                    None
                } else {
                    field(orig, k)
                },
        decreases keys@.len() - i,
    {
        let ghost before = fs@;
        let key = keys[i];
        let v = take_field(fs, key);
        proof {
            assert(!listed(keys@.subrange(0, i as int), key@)) by {
                if listed(keys@.subrange(0, i as int), key@) {
                    let j = choose|j: int| 0 <= j < i && #[trigger] keys@.subrange(0, i as int)[j]@ == key@;
                    assert(keys@[j]@ == keys@[i as int]@);
                }
            }
            assert forall|k: Seq<char>|
                #[trigger] field(fs@, k) == if listed(keys@.subrange(0, i + 1), k) {
                    None
                } else {
                    field(orig, k)
                } by {
                lemma_without_field(before, key@, k);
                if listed(keys@.subrange(0, i as int), k) {
                    let j = choose|j: int| 0 <= j < i && #[trigger] keys@.subrange(0, i as int)[j]@ == k;
                    assert(keys@.subrange(0, i + 1)[j]@ == k);
                }
                if listed(keys@.subrange(0, i + 1), k) && k != key@ {
                    let j = choose|j: int| 0 <= j < i + 1 && #[trigger] keys@.subrange(0, i + 1)[j]@ == k;
                    assert(j != i);
                    assert(keys@.subrange(0, i as int)[j]@ == k);
                }
                if k == key@ {
                    assert(keys@.subrange(0, i + 1)[i as int]@ == k);
                }
            }
        }
        r.push(v);
        i += 1;
    }
    assert(keys@.subrange(0, i as int) =~= keys@);
    r
}

/// The fields of an object value, or none for anything else.
pub fn into_fields(v: Option<JsonValue>) -> (r: Vec<(String, JsonValue)>)
    ensures
        r@ == fields_of(v),
{
    match v {
        Some(JsonValue::Object(fs)) => fs,
        _ => Vec::new(),
    }
}

/// Whether `v` is a string with the text `s`.
pub fn is_text(v: &JsonValue, s: &str) -> (r: bool)
    ensures
        r == (text_of(Some(*v)) == Some(s@)),
{
    match v {
        JsonValue::Str(t) => {
            let k = String::from_str(s);
            *t == k
        },
        _ => false,
    }
}

/// Whether the first field named `key` is a string with the text `s`.
pub fn field_is_text(fs: &Vec<(String, JsonValue)>, key: &str, s: &str) -> (r: bool)
    ensures
        r == (text_of(field(fs@, key@)) == Some(s@)),
{
    let k = String::from_str(key);
    let mut i: usize = 0;
    assert(fs@.subrange(0, fs@.len() as int) =~= fs@);
    while i < fs.len()
        invariant
            i <= fs@.len(),
            k@ == key@,
            field(fs@, key@) == field(fs@.subrange(i as int, fs@.len() as int), key@),
        decreases fs@.len() - i,
    {
        let ghost rest = fs@.subrange(i as int, fs@.len() as int);
        assert(rest[0] == fs@[i as int]);
        if fs[i].0 == k {
            return is_text(&fs[i].1, s);
        }
        assert(rest.drop_first() =~= fs@.subrange(i + 1, fs@.len() as int));
        i += 1;
    }
    false
}

} // verus!

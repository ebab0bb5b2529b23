//! JSON values.

use crate::text::{decimal, decimal_u64, hex_fixed, is_digit, opt_view, parse_int, read_int, same, views};
use vstd::prelude::*;

verus! {

/// A JSON text that was read: the same value in compact form, and, of an array, for each
/// item whether it is a number and its compact form.
#[derive(Debug)]
pub struct JsonReading {
    pub compact: String,
    pub items: Option<Vec<(bool, String)>>,
}

impl View for JsonReading {
    type V = (Seq<char>, Option<Seq<(bool, Seq<char>)>>);

    open spec fn view(&self) -> (Seq<char>, Option<Seq<(bool, Seq<char>)>>) {
        (
            self.compact@,
            match self.items {
                Some(v) => Some(Seq::new(v@.len(), |i: int| (v@[i].0, v@[i].1@))),
                None => None,
            },
        )
    }
}

/// What a JSON text is once it is read: its compact form, and, of an array, for each item
/// whether it is a number and its compact form; or the message that refuses the text.
pub uninterp spec fn json_read(text: Seq<char>) -> Result<
    (Seq<char>, Option<Seq<(bool, Seq<char>)>>),
    Seq<char>,
>;

/// Whether no digit of a text has a point or an exponent behind it, so that the text holds
/// no floating-point number.
pub open spec fn holds_no_fraction(s: Seq<char>) -> bool {
    forall|i: int|
        0 <= i < s.len() - 1 && is_digit(#[trigger] s[i]) ==> s[i + 1] != '.' && s[i + 1] != 'e'
            && s[i + 1] != 'E'
}

/// Whether a text that holds no floating-point number is what comes of reading and writing
/// it.
pub open spec fn reads_as_itself(s: Seq<char>) -> bool {
    holds_no_fraction(s) ==> json_rewritten(s) == Ok::<Seq<char>, Seq<char>>(s)
}

/// `serde_json::from_str` to a `Value`: what its `to_string` gives, and, where its
/// `as_array` gives items, what `is_number` and `to_string` say of each; or the text of
/// serde_json's error. What was written is read as the same value, and so is written the
/// same again; of floating-point numbers that is not claimed.
#[verifier::external_body]
pub(crate) fn read_json(text: &str) -> (r: Result<JsonReading, String>)
    ensures
        match r {
            Ok(reading) => json_read(text@) == Ok::<
                (Seq<char>, Option<Seq<(bool, Seq<char>)>>),
                Seq<char>,
            >(reading@),
            Err(e) => json_read(text@) == Err::<
                (Seq<char>, Option<Seq<(bool, Seq<char>)>>),
                Seq<char>,
            >(e@),
        },
        r matches Ok(reading) ==> reads_as_itself(reading.compact@),
{
    match serde_json::from_str::<serde_json::Value>(text) {
        Ok(value) => Ok(
            JsonReading {
                compact: value.to_string(),
                items: value.as_array().map(
                    |v| v.iter().map(|i| (i.is_number(), i.to_string())).collect(),
                ),
            },
        ),
        Err(e) => Err(e.to_string()),
    }
}

/// What a JSON text is once it is read and written again, or the message that refuses it.
pub open spec fn json_rewritten(text: Seq<char>) -> Result<Seq<char>, Seq<char>> {
    match json_read(text) {
        Ok((compact, _)) => Ok(compact),
        Err(e) => Err(e),
    }
}

/// The compact form of a JSON text, or the message that refuses it.
pub fn rewrite_json(text: &str) -> (r: Result<String, String>)
    ensures
        match r {
            Ok(s) => json_rewritten(text@) == Ok::<Seq<char>, Seq<char>>(s@),
            Err(e) => json_rewritten(text@) == Err::<Seq<char>, Seq<char>>(e@),
        },
        r matches Ok(s) ==> reads_as_itself(s@),
{
    match read_json(text) {
        Ok(reading) => Ok(reading.compact),
        Err(e) => Err(e),
    }
}

/// A JSON value. A number is held as its text; an object holds its members in order.
#[derive(Debug)]
pub enum Json {
    Null,
    Bool(bool),
    Number(String),
    Text(String),
    Array(Vec<Json>),
    Object(Vec<(String, Json)>),
}

/// The mathematical value of a `Json`.
pub enum JsonModel {
    Null,
    Bool(bool),
    Number(Seq<char>),
    Text(Seq<char>),
    Array(Seq<JsonModel>),
    Object(Seq<(Seq<char>, JsonModel)>),
}

/// The mathematical value of a JSON value.
pub open spec fn json_model(j: Json) -> JsonModel
    decreases j,
{
    match j {
        Json::Null => JsonModel::Null,
        Json::Bool(b) => JsonModel::Bool(b),
        Json::Number(n) => JsonModel::Number(n@),
        Json::Text(s) => JsonModel::Text(s@),
        Json::Array(v) => JsonModel::Array(
            Seq::new(
                v@.len(),
                |i: int|
                    if 0 <= i < v@.len() {
                        json_model(v@[i])
                    } else {
                        JsonModel::Null
                    },
            ),
        ),
        Json::Object(v) => JsonModel::Object(
            Seq::new(
                v@.len(),
                |i: int|
                    if 0 <= i < v@.len() {
                        (v@[i].0@, json_model(v@[i].1))
                    } else {
                        (Seq::empty(), JsonModel::Null)
                    },
            ),
        ),
    }
}

impl View for Json {
    type V = JsonModel;

    open spec fn view(&self) -> JsonModel {
        json_model(*self)
    }
}

/// The member of a list of members with a given name; of two that share a name the first.
pub open spec fn member(o: Seq<(Seq<char>, JsonModel)>, name: Seq<char>, i: int) -> Option<JsonModel>
    decreases o.len() - i,
{
    if i < 0 || i >= o.len() {
        None
    } else if o[i].0 == name {
        Some(o[i].1)
    } else {
        member(o, name, i + 1)
    }
}

/// The member of an object with a given name; nothing for other values.
pub open spec fn json_get(j: JsonModel, name: Seq<char>) -> Option<JsonModel> {
    match j {
        JsonModel::Object(o) => member(o, name, 0),
        _ => None,
    }
}

/// The member of an object with a given name; null where there is none.
pub open spec fn json_at(j: JsonModel, name: Seq<char>) -> JsonModel {
    match json_get(j, name) {
        Some(v) => v,
        None => JsonModel::Null,
    }
}

/// The characters of a string; nothing for other values.
pub open spec fn json_text(j: JsonModel) -> Option<Seq<char>> {
    match j {
        JsonModel::Text(s) => Some(s),
        _ => None,
    }
}

/// The characters of a string, or none.
pub open spec fn text_or_empty(j: JsonModel) -> Seq<char> {
    match j {
        JsonModel::Text(s) => s,
        _ => Seq::empty(),
    }
}

/// The value of a number that is an unsigned integer.
pub open spec fn json_u64(j: JsonModel) -> Option<int> {
    match j {
        JsonModel::Number(n) => match read_int(n, 0, u64::MAX as int) {
            Ok(v) => Some(v),
            Err(_) => None,
        },
        _ => None,
    }
}

/// The value of a number that is an unsigned integer, or zero.
pub open spec fn number_or_zero(j: JsonModel) -> nat {
    match json_u64(j) {
        Some(v) => v as nat,
        None => 0,
    }
}

/// Whether a value is `true`.
pub open spec fn json_true(j: JsonModel) -> bool {
    j == JsonModel::Bool(true)
}

/// The items of an array; none for other values.
pub open spec fn items_of(j: JsonModel) -> Seq<JsonModel> {
    match j {
        JsonModel::Array(v) => v,
        _ => Seq::empty(),
    }
}

/// A text, or null.
pub open spec fn optional_text(o: Option<Seq<char>>) -> JsonModel {
    match o {
        Some(s) => JsonModel::Text(s),
        None => JsonModel::Null,
    }
}

/// An unsigned number.
pub open spec fn unsigned(n: nat) -> JsonModel {
    JsonModel::Number(decimal(n))
}

/// The position from `i` on at which a list of members has a name.
pub open spec fn member_position(
    o: Seq<(Seq<char>, JsonModel)>,
    name: Seq<char>,
    i: int,
) -> Option<int>
    decreases o.len() - i,
{
    if i < 0 || i >= o.len() {
        None
    } else if o[i].0 == name {
        Some(i)
    } else {
        member_position(o, name, i + 1)
    }
}

/// The members after a name was given a value: the member of that name has the new value,
/// and stands last if there was none.
pub open spec fn with_member(
    o: Seq<(Seq<char>, JsonModel)>,
    name: Seq<char>,
    value: JsonModel,
) -> Seq<(Seq<char>, JsonModel)> {
    match member_position(o, name, 0) {
        Some(k) => o.update(k, (name, value)),
        None => o.push((name, value)),
    }
}

/// The position of a name is the first at which it stands.
proof fn lemma_member_position(o: Seq<(Seq<char>, JsonModel)>, name: Seq<char>, i: int)
    requires
        0 <= i,
    ensures
        match member_position(o, name, i) {
            Some(k) => i <= k < o.len() && o[k].0 == name && forall|j: int|
                i <= j < k ==> (#[trigger] o[j]).0 != name,
            None => forall|j: int| i <= j < o.len() ==> (#[trigger] o[j]).0 != name,
        },
    decreases o.len() - i,
{
    if i >= o.len() || o[i].0 == name {
    } else {
        lemma_member_position(o, name, i + 1);
    }
}

/// The first member of a name is the one that counts.
pub proof fn lemma_member_at(o: Seq<(Seq<char>, JsonModel)>, name: Seq<char>, i: int, k: int)
    requires
        0 <= i <= k < o.len(),
        o[k].0 == name,
        forall|j: int| i <= j < k ==> (#[trigger] o[j]).0 != name,
    ensures
        member(o, name, i) == Some(o[k].1),
    decreases k - i,
{
    if i < k {
        lemma_member_at(o, name, i + 1, k);
    }
}

/// A name that no member has is not found.
pub proof fn lemma_member_none(o: Seq<(Seq<char>, JsonModel)>, name: Seq<char>, i: int)
    requires
        0 <= i,
        forall|j: int| i <= j < o.len() ==> (#[trigger] o[j]).0 != name,
    ensures
        member(o, name, i) is None,
    decreases o.len() - i,
{
    if i < o.len() {
        lemma_member_none(o, name, i + 1);
    }
}

/// A name that was given a value has that value.
pub proof fn lemma_member_set(o: Seq<(Seq<char>, JsonModel)>, name: Seq<char>, value: JsonModel)
    ensures
        member(with_member(o, name, value), name, 0) == Some(value),
{
    lemma_member_position(o, name, 0);
    let p = with_member(o, name, value);
    match member_position(o, name, 0) {
        Some(k) => {
            lemma_member_at(p, name, 0, k);
        },
        None => {
            lemma_member_at(p, name, 0, o.len() as int);
        },
    }
}

/// The other names keep theirs.
pub proof fn lemma_member_kept(
    o: Seq<(Seq<char>, JsonModel)>,
    name: Seq<char>,
    value: JsonModel,
    other: Seq<char>,
)
    requires
        other != name,
    ensures
        member(with_member(o, name, value), other, 0) == member(o, other, 0),
{
    lemma_member_position(o, name, 0);
    lemma_member_position(o, other, 0);
    let p = with_member(o, name, value);
    match member_position(o, other, 0) {
        Some(k) => {
            lemma_member_at(o, other, 0, k);
            assert forall|j: int| 0 <= j < k implies (#[trigger] p[j]).0 != other by {
                assert(o[j].0 != other);
            }
            lemma_member_at(p, other, 0, k);
        },
        None => {
            lemma_member_none(o, other, 0);
            assert forall|j: int| 0 <= j < p.len() implies (#[trigger] p[j]).0 != other by {
                if j < o.len() {
                    assert(o[j].0 != other);
                }
            }
            lemma_member_none(p, other, 0);
        },
    }
}

/// The members of an object that is being made.
#[derive(Debug)]
pub struct Members {
    list: Vec<(String, Json)>,
}

impl View for Members {
    type V = Seq<(Seq<char>, JsonModel)>;

    closed spec fn view(&self) -> Seq<(Seq<char>, JsonModel)> {
        Seq::new(self.list@.len(), |i: int| (self.list@[i].0@, self.list@[i].1@))
    }
}

impl Members {
    pub fn new() -> (r: Members)
        ensures
            r@ == Seq::<(Seq<char>, JsonModel)>::empty(),
    {
        let r = Members { list: Vec::new() };
        assert(r@ =~= Seq::<(Seq<char>, JsonModel)>::empty());
        r
    }

    /// Adds a member at the end.
    pub fn push(&mut self, name: &str, value: Json)
        ensures
            final(self)@ == old(self)@.push((name@, value@)),
    {
        let ghost before = self@;
        let key = name.to_owned();
        self.list.push((key, value));
        assert(self@ =~= before.push((name@, value@)));
    }

    /// Gives a name a value.
    pub fn set(&mut self, name: &str, value: Json)
        ensures
            final(self)@ == with_member(old(self)@, name@, value@),
    {
        let ghost before = self@;
        let mut i: usize = 0;
        while i < self.list.len()
            invariant
                before == old(self)@,
                self@ == before,
                before.len() == self.list@.len(),
                i <= self.list@.len(),
                member_position(before, name@, 0) == member_position(before, name@, i as int),
            decreases self.list@.len() - i,
        {
            assert(before[i as int].0 == self.list@[i as int].0@);
            if same(&self.list[i].0, name) {
                let key = name.to_owned();
                self.list.set(i, (key, value));
                assert(self@ =~= before.update(i as int, (name@, value@)));
                return;
            }
            i = i + 1;
        }
        self.push(name, value);
    }

    /// The object of the members.
    pub fn object(self) -> (r: Json)
        ensures
            r@ == JsonModel::Object(self@),
    {
        let ghost m = self@;
        let r = Json::Object(self.list);
        assert(r@->Object_0 =~= m);
        r
    }
}

/// A row in which a name was given a value; a value that is no object stays as it is.
pub open spec fn with_value(row: JsonModel, name: Seq<char>, value: JsonModel) -> JsonModel {
    match row {
        JsonModel::Object(o) => JsonModel::Object(with_member(o, name, value)),
        other => other,
    }
}

/// The array of some values.
pub fn json_array(v: Vec<Json>) -> (r: Json)
    ensures
        r@ == JsonModel::Array(views(v@)),
{
    let ghost m = views(v@);
    let r = Json::Array(v);
    assert(r@->Array_0 =~= m);
    r
}

/// A text.
pub fn json_string(s: &str) -> (r: Json)
    ensures
        r@ == JsonModel::Text(s@),
{
    Json::Text(s.to_owned())
}

/// A text, or null.
pub fn json_optional(o: &Option<String>) -> (r: Json)
    ensures
        r@ == optional_text(opt_view(*o)),
{
    match o {
        Some(s) => Json::Text(s.clone()),
        None => Json::Null,
    }
}

/// An unsigned number.
pub fn json_number(n: u64) -> (r: Json)
    ensures
        r@ == unsigned(n as nat),
{
    Json::Number(decimal_u64(n))
}

/// The texts of an array of strings.
pub open spec fn texts(v: Seq<Seq<char>>) -> JsonModel {
    JsonModel::Array(Seq::new(v.len(), |i: int| JsonModel::Text(v[i])))
}

/// An array of strings.
pub fn json_strings(v: &Vec<String>) -> (r: Json)
    ensures
        r@ == texts(views(v@)),
{
    let mut out: Vec<Json> = Vec::new();
    let mut i: usize = 0;
    while i < v.len()
        invariant
            i <= v@.len(),
            out@.len() == i,
            forall|k: int| 0 <= k < i ==> (#[trigger] out@[k])@ == JsonModel::Text(v@[k]@),
        decreases v@.len() - i,
    {
        out.push(Json::Text(v[i].clone()));
        i = i + 1;
    }
    let r = json_array(out);
    assert(r@->Array_0 =~= texts(views(v@))->Array_0);
    r
}

// ---------------------------------------------------------------------------
// Compact form

/// A character as it stands in a JSON string.
pub open spec fn escaped(c: char) -> Seq<char> {
    if c == '"' {
        seq!['\\', '"']
    } else if c == '\\' {
        seq!['\\', '\\']
    } else if c == '\u{8}' {
        seq!['\\', 'b']
    } else if c == '\t' {
        seq!['\\', 't']
    } else if c == '\n' {
        seq!['\\', 'n']
    } else if c == '\u{c}' {
        seq!['\\', 'f']
    } else if c == '\r' {
        seq!['\\', 'r']
    } else if (c as nat) < 0x20 {
        seq!['\\', 'u'] + hex_fixed(c as nat, 4)
    } else {
        seq![c]
    }
}

/// The characters of a text as they stand in a JSON string.
pub open spec fn escaped_text(s: Seq<char>) -> Seq<char>
    decreases s.len(),
{
    if s.len() == 0 {
        Seq::empty()
    } else {
        escaped_text(s.drop_last()) + escaped(s.last())
    }
}

/// A text as a JSON string.
pub open spec fn quoted(s: Seq<char>) -> Seq<char> {
    seq!['"'] + escaped_text(s) + seq!['"']
}

/// `serde_json::Value::to_string` of a string: the text between double quotes, in which
/// quotes, backslashes and the control characters below the space are escaped.
#[verifier::external_body]
fn quote_json(text: &str) -> (r: String)
    ensures
        r@ == quoted(text@),
{
    serde_json::Value::String(text.to_string()).to_string()
}

/// The first `n` values, separated by commas.
pub open spec fn written_items(v: Seq<JsonModel>, n: int) -> Seq<char>
    decreases v, n,
{
    if n <= 0 || n > v.len() {
        Seq::empty()
    } else if n == 1 {
        written(v[0])
    } else {
        written_items(v, n - 1) + ","@ + written(v[n - 1])
    }
}

/// A member: its name, a colon and its value.
pub open spec fn written_member(m: (Seq<char>, JsonModel)) -> Seq<char>
    decreases m, 0int,
{
    quoted(m.0) + ":"@ + written(m.1)
}

/// The first `n` members, separated by commas.
pub open spec fn written_members(v: Seq<(Seq<char>, JsonModel)>, n: int) -> Seq<char>
    decreases v, n,
{
    if n <= 0 || n > v.len() {
        Seq::empty()
    } else if n == 1 {
        written_member(v[0])
    } else {
        written_members(v, n - 1) + ","@ + written_member(v[n - 1])
    }
}

/// The compact form of a value.
pub open spec fn written(j: JsonModel) -> Seq<char>
    decreases j, 0int,
{
    match j {
        JsonModel::Null => "null"@,
        JsonModel::Bool(b) => if b {
            "true"@
        } else {
            "false"@
        },
        JsonModel::Number(n) => n,
        JsonModel::Text(s) => quoted(s),
        JsonModel::Array(v) => "["@ + written_items(v, v.len() as int) + "]"@,
        JsonModel::Object(v) => "{"@ + written_members(v, v.len() as int) + "}"@,
    }
}

impl Json {
    /// The compact form of the value.
    pub fn to_text(&self) -> (r: String)
        ensures
            r@ == written(self@),
        decreases self,
    {
        match self {
            Json::Null => "null".to_owned(),
            Json::Bool(b) => if *b {
                "true".to_owned()
            } else {
                "false".to_owned()
            },
            Json::Number(n) => n.clone(),
            Json::Text(s) => quote_json(s),
            Json::Array(v) => {
                let ghost m = self@->Array_0;
                let mut out = "[".to_owned();
                let mut i: usize = 0;
                assert(out@ =~= "["@ + written_items(m, 0));
                while i < v.len()
                    invariant
                        i <= v@.len(),
                        *self == Json::Array(*v),
                        self@ == JsonModel::Array(m),
                        m.len() == v@.len(),
                        out@ == "["@ + written_items(m, i as int),
                    decreases v@.len() - i,
                {
                    proof {
                        assert(decreases_to!(self => self->Array_0));
                        assert(decreases_to!(v@ => v@[i as int]));
                        assert(m[i as int] == v@[i as int]@);
                    }
                    if i > 0 {
                        out.append(",");
                    }
                    let x = v[i].to_text();
                    out.append(&x);
                    assert(out@ =~= "["@ + written_items(m, i + 1));
                    i = i + 1;
                }
                out.append("]");
                out
            },
            Json::Object(v) => {
                let ghost m = self@->Object_0;
                let mut out = "{".to_owned();
                let mut i: usize = 0;
                assert(out@ =~= "{"@ + written_members(m, 0));
                while i < v.len()
                    invariant
                        i <= v@.len(),
                        *self == Json::Object(*v),
                        self@ == JsonModel::Object(m),
                        m.len() == v@.len(),
                        out@ == "{"@ + written_members(m, i as int),
                    decreases v@.len() - i,
                {
                    proof {
                        assert(decreases_to!(self => self->Object_0));
                        assert(decreases_to!(v@ => v@[i as int]));
                        assert(decreases_to!(v@[i as int] => v@[i as int].1));
                        assert(m[i as int] == (v@[i as int].0@, v@[i as int].1@));
                    }
                    if i > 0 {
                        out.append(",");
                    }
                    let key = quote_json(&v[i].0);
                    out.append(&key);
                    out.append(":");
                    let x = v[i].1.to_text();
                    out.append(&x);
                    assert(written_member(m[i as int]) == quoted(v@[i as int].0@) + ":"@ + x@);
                    assert(out@ =~= "{"@ + written_members(m, i + 1));
                    i = i + 1;
                }
                out.append("}");
                out
            },
        }
    }

    /// The row in which a name was given a value; a value that is no object stays as it is.
    pub fn with_value(self, name: &str, value: Json) -> (r: Json)
        ensures
            r@ == with_value(self@, name@, value@),
    {
        match self {
            Json::Object(list) => {
                let ghost o = self@->Object_0;
                let mut m = Members { list };
                assert(m@ =~= o);
                m.set(name, value);
                m.object()
            },
            other => other,
        }
    }

    /// The characters of a string, or none.
    pub fn text_or_empty(&self) -> (r: String)
        ensures
            r@ == text_or_empty(self@),
    {
        match self {
            Json::Text(s) => s.clone(),
            _ => {
                let s = String::new();
                assert(s@ =~= Seq::<char>::empty());
                s
            },
        }
    }

    /// The value of a number that is an unsigned integer.
    pub fn as_u64(&self) -> (r: Option<u64>)
        ensures
            match r {
                Some(n) => json_u64(self@) == Some(n as int),
                None => json_u64(self@) is None,
            },
    {
        match self {
            Json::Number(n) => match parse_int(n, 0, u64::MAX as i128) {
                Ok(v) => Some(v as u64),
                Err(_) => None,
            },
            _ => None,
        }
    }

    /// The value of a number that is an unsigned integer, or zero.
    pub fn number_or_zero(&self) -> (r: u64)
        ensures
            r == number_or_zero(self@),
    {
        match self.as_u64() {
            Some(n) => n,
            None => 0,
        }
    }

    pub fn is_true(&self) -> (r: bool)
        ensures
            r == json_true(self@),
    {
        match self {
            Json::Bool(b) => *b,
            _ => false,
        }
    }

    /// The member of an object with a given name; null where there is none.
    pub fn at(&self, name: &str) -> (r: &Json)
        ensures
            r@ == json_at(self@, name@),
    {
        match self.get(name) {
            Some(v) => v,
            None => &Json::Null,
        }
    }

    /// The items of an array; nothing for other values.
    pub fn as_array(&self) -> (r: Option<&Vec<Json>>)
        ensures
            match r {
                Some(v) => self@ == JsonModel::Array(views(v@)),
                None => !(self@ is Array),
            },
    {
        match self {
            Json::Array(v) => {
                assert(self@->Array_0 =~= views(v@));
                Some(v)
            },
            _ => None,
        }
    }

    /// The member of an object with a given name; nothing for other values.
    pub fn get(&self, name: &str) -> (r: Option<&Json>)
        ensures
            match r {
                Some(v) => json_get(self@, name@) == Some(v@),
                None => json_get(self@, name@) is None,
            },
    {
        match self {
            Json::Object(v) => {
                let ghost o = self@->Object_0;
                let mut i: usize = 0;
                while i < v.len()
                    invariant
                        i <= v@.len(),
                        *self == Json::Object(*v),
                        self@ == JsonModel::Object(o),
                        o.len() == v@.len(),
                        member(o, name@, 0) == member(o, name@, i as int),
                    decreases v@.len() - i,
                {
                    assert(o[i as int] == (v@[i as int].0@, v@[i as int].1@));
                    if same(&v[i].0, name) {
                        return Some(&v[i].1);
                    }
                    i = i + 1;
                }
                None
            },
            _ => None,
        }
    }

    pub fn is_null(&self) -> (r: bool)
        ensures
            r == (self@ is Null),
    {
        match self {
            Json::Null => true,
            _ => false,
        }
    }

    pub fn is_object(&self) -> (r: bool)
        ensures
            r == (self@ is Object),
    {
        match self {
            Json::Object(_) => true,
            _ => false,
        }
    }

    /// The characters of a string; nothing for other values.
    pub fn as_str(&self) -> (r: Option<&String>)
        ensures
            match r {
                Some(s) => self@ == JsonModel::Text(s@),
                None => !(self@ is Text),
            },
    {
        match self {
            Json::Text(s) => Some(s),
            _ => None,
        }
    }

    /// Another value that is the same.
    pub fn copy(&self) -> (r: Json)
        ensures
            r@ == self@,
        decreases self,
    {
        match self {
            Json::Null => Json::Null,
            Json::Bool(b) => Json::Bool(*b),
            Json::Number(n) => Json::Number(n.clone()),
            Json::Text(s) => Json::Text(s.clone()),
            Json::Array(v) => {
                let mut out: Vec<Json> = Vec::new();
                let mut i: usize = 0;
                while i < v.len()
                    invariant
                        i <= v@.len(),
                        *self == Json::Array(*v),
                        out@.len() == i,
                        forall|k: int| 0 <= k < i ==> (#[trigger] out@[k])@ == v@[k]@,
                    decreases v@.len() - i,
                {
                    proof {
                        assert(decreases_to!(self => self->Array_0));
                        assert(decreases_to!(v@ => v@[i as int]));
                    }
                    let x = v[i].copy();
                    out.push(x);
                    i = i + 1;
                }
                let r = Json::Array(out);
                proof {
                    assert(r@->Array_0 =~= self@->Array_0);
                }
                r
            },
            Json::Object(v) => {
                let mut out: Vec<(String, Json)> = Vec::new();
                let mut i: usize = 0;
                while i < v.len()
                    invariant
                        i <= v@.len(),
                        *self == Json::Object(*v),
                        out@.len() == i,
                        forall|k: int|
                            0 <= k < i ==> (#[trigger] out@[k]).0@ == v@[k].0@ && out@[k].1@
                                == v@[k].1@,
                    decreases v@.len() - i,
                {
                    let key = v[i].0.clone();
                    proof {
                        assert(decreases_to!(self => self->Object_0));
                        assert(decreases_to!(v@ => v@[i as int]));
                        assert(decreases_to!(v@[i as int] => v@[i as int].1));
                    }
                    let x = v[i].1.copy();
                    out.push((key, x));
                    i = i + 1;
                }
                let r = Json::Object(out);
                proof {
                    assert(r@->Object_0 =~= self@->Object_0);
                }
                r
            },
        }
    }
}

} // verus!

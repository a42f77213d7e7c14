//! The Lua backend: each script runs as one top-level chunk in an interpreter
//! of its own. What it returns is copied out of the interpreter as plain
//! values, one at a time, and then marshalled, strictly, into the requested
//! shape.

use vstd::prelude::*;

verus! {

/// The interpreter's own error type. Its contents are not read here: a value
/// is carried through, and `describe` renders it.
#[verifier::external_type_specification]
#[verifier::external_body]
pub struct ExLuaError(rlua::prelude::LuaError);

/// A value inside the interpreter. It lives only as long as the interpreter's
/// context and is copied out by `copy_value`.
#[verifier::external_type_specification]
#[verifier::external_body]
pub struct ExLuaValue<'a>(rlua::prelude::LuaValue<'a>);

/// A table inside the interpreter: here the one into which the interpreter
/// packs what a chunk returned.
#[verifier::external_type_specification]
#[verifier::external_body]
pub struct ExLuaTable<'a>(rlua::prelude::LuaTable<'a>);

/// What the Lua backend reports when it fails.
pub type EvalError = rlua::prelude::LuaError;

/// The outcome of one evaluation by the Lua backend.
pub type EvalResult<T> = core::result::Result<T, EvalError>;

/// The text that the `Display` impl of `rlua::Error` writes for `error`.
pub uninterp spec fn diagnostic_text(error: rlua::prelude::LuaError) -> Seq<char>;

/// rlua's failure for a Lua value of the kind `from` that cannot become a
/// host value of the shape `to`: its variant `FromLuaConversionError` with
/// these two names and no further message.
pub uninterp spec fn conversion_error(from: Seq<char>, to: Seq<char>) -> rlua::prelude::LuaError;

/// One Lua value, as far as it can be held outside the interpreter.
#[derive(Debug, PartialEq, Eq)]
pub enum Item {
    Nil,
    Boolean(bool),
    /// A number without a fractional representation.
    Integer(i64),
    /// A floating-point number; the number itself is not kept.
    Number,
    /// A string that is valid UTF-8.
    Text(String),
    /// A table; its entries are held by the `Native` that owns this item.
    Table,
    Function,
    Thread,
    UserData,
    LightUserData,
    /// An error object of the interpreter.
    Failure,
}

/// One value that a chunk returned: what it is, and for a table its entries
/// (key and value) one level deep, in the order the interpreter walks them.
#[derive(Debug, PartialEq, Eq)]
pub struct Native {
    pub item: Item,
    pub entries: Vec<(Item, Item)>,
}

impl Item {
    /// Lua's name for the kind of value this is.
    pub open spec fn spec_kind(&self) -> Seq<char> {
        match self {
            Item::Nil => "nil"@,
            Item::Boolean(_) => "boolean"@,
            Item::Integer(_) => "integer"@,
            Item::Number => "number"@,
            Item::Text(_) => "string"@,
            Item::Table => "table"@,
            Item::Function => "function"@,
            Item::Thread => "thread"@,
            Item::UserData => "userdata"@,
            Item::LightUserData => "light userdata"@,
            Item::Failure => "error"@,
        }
    }

    /// Lua's name for the kind of value this is.
    pub fn kind(&self) -> (name: &'static str)
        ensures
            name@ == self.spec_kind(),
    {
        match self {
            Item::Nil => "nil",
            Item::Boolean(_) => "boolean",
            Item::Integer(_) => "integer",
            Item::Number => "number",
            Item::Text(_) => "string",
            Item::Table => "table",
            Item::Function => "function",
            Item::Thread => "thread",
            Item::UserData => "userdata",
            Item::LightUserData => "light userdata",
            Item::Failure => "error",
        }
    }
}

/// The one value that `returned` stands for where a single value is asked
/// for: `nil` where the chunk returned nothing, nothing where it returned
/// several values.
pub open spec fn single(returned: Seq<Native>) -> Option<Item> {
    if returned.len() == 0 {
        Some(Item::Nil)
    } else if returned.len() == 1 {
        Some(returned[0].item)
    } else {
        None
    }
}

/// What a failed marshalling calls the values it was given: Lua's name for
/// the kind of a single value, or that there were several.
pub open spec fn spec_kind_of(returned: Seq<Native>) -> Seq<char> {
    match single(returned) {
        Some(item) => item.spec_kind(),
        None => "several values"@,
    }
}

/// What a failed marshalling calls the values it was given.
pub fn kind_of(returned: &Vec<Native>) -> (name: &'static str)
    ensures
        name@ == spec_kind_of(returned@),
{
    if returned.len() == 0 {
        "nil"
    } else if returned.len() == 1 {
        returned[0].item.kind()
    } else {
        "several values"
    }
}

/// A shape that one Lua value can take without being coerced: `bool`, every
/// integer type (a Lua integer within the type's range), `String`, and
/// `Option` of any of these, for which `nil` is `None`.
pub trait Element: Sized {
    /// The host value that `item` is, where it has this shape.
    spec fn of_item(item: Item) -> Option<Self>;

    /// The shape's name in a failure.
    spec fn spec_name() -> Seq<char>;

    /// The shape's name in a failure.
    fn name() -> (name: &'static str)
        ensures
            name@ == Self::spec_name(),
    ;

    /// The host value that `item` is, where it has this shape.
    fn from_item(item: &Item) -> (value: Option<Self>)
        ensures
            value == Self::of_item(*item),
    ;
}

impl Element for bool {
    open spec fn of_item(item: Item) -> Option<bool> {
        match item {
            Item::Boolean(flag) => Some(flag),
            _ => None,
        }
    }

    open spec fn spec_name() -> Seq<char> {
        "bool"@
    }

    fn name() -> (name: &'static str) {
        "bool"
    }

    fn from_item(item: &Item) -> (value: Option<bool>) {
        match item {
            Item::Boolean(flag) => Some(*flag),
            _ => None,
        }
    }
}

impl Element for String {
    open spec fn of_item(item: Item) -> Option<String> {
        match item {
            Item::Text(text) => Some(text),
            _ => None,
        }
    }

    open spec fn spec_name() -> Seq<char> {
        "String"@
    }

    fn name() -> (name: &'static str) {
        "String"
    }

    fn from_item(item: &Item) -> (value: Option<String>) {
        match item {
            Item::Text(text) => Some(text.clone()),
            _ => None,
        }
    }
}

impl<T: Element> Element for Option<T> {
    open spec fn of_item(item: Item) -> Option<Option<T>> {
        match item {
            Item::Nil => Some(None),
            _ => match T::of_item(item) {
                Some(value) => Some(Some(value)),
                None => None,
            },
        }
    }

    open spec fn spec_name() -> Seq<char> {
        "Option"@
    }

    fn name() -> (name: &'static str) {
        "Option"
    }

    fn from_item(item: &Item) -> (value: Option<Option<T>>) {
        match item {
            Item::Nil => Some(None),
            _ => match T::from_item(item) {
                Some(value) => Some(Some(value)),
                None => None,
            },
        }
    }
}

impl Element for i8 {
    open spec fn of_item(item: Item) -> Option<i8> {
        match item {
            Item::Integer(number) => if i8::MIN <= number <= i8::MAX {
                Some(number as i8)
            } else {
                None
            },
            _ => None,
        }
    }

    open spec fn spec_name() -> Seq<char> {
        "i8"@
    }

    fn name() -> (name: &'static str) {
        "i8"
    }

    fn from_item(item: &Item) -> (value: Option<i8>) {
        match item {
            Item::Integer(number) => if i8::MIN as i64 <= *number && *number <= i8::MAX as i64 {
                Some(*number as i8)
            } else {
                None
            },
            _ => None,
        }
    }
}

impl Element for i16 {
    open spec fn of_item(item: Item) -> Option<i16> {
        match item {
            Item::Integer(number) => if i16::MIN <= number <= i16::MAX {
                Some(number as i16)
            } else {
                None
            },
            _ => None,
        }
    }

    open spec fn spec_name() -> Seq<char> {
        "i16"@
    }

    fn name() -> (name: &'static str) {
        "i16"
    }

    fn from_item(item: &Item) -> (value: Option<i16>) {
        match item {
            Item::Integer(number) => if i16::MIN as i64 <= *number && *number <= i16::MAX as i64 {
                Some(*number as i16)
            } else {
                None
            },
            _ => None,
        }
    }
}

impl Element for i32 {
    open spec fn of_item(item: Item) -> Option<i32> {
        match item {
            Item::Integer(number) => if i32::MIN <= number <= i32::MAX {
                Some(number as i32)
            } else {
                None
            },
            _ => None,
        }
    }

    open spec fn spec_name() -> Seq<char> {
        "i32"@
    }

    fn name() -> (name: &'static str) {
        "i32"
    }

    fn from_item(item: &Item) -> (value: Option<i32>) {
        match item {
            Item::Integer(number) => if i32::MIN as i64 <= *number && *number <= i32::MAX as i64 {
                Some(*number as i32)
            } else {
                None
            },
            _ => None,
        }
    }
}

impl Element for isize {
    open spec fn of_item(item: Item) -> Option<isize> {
        match item {
            Item::Integer(number) => if isize::MIN <= number <= isize::MAX {
                Some(number as isize)
            } else {
                None
            },
            _ => None,
        }
    }

    open spec fn spec_name() -> Seq<char> {
        "isize"@
    }

    fn name() -> (name: &'static str) {
        "isize"
    }

    fn from_item(item: &Item) -> (value: Option<isize>) {
        match item {
            Item::Integer(number) => if isize::MIN as i64 <= *number && *number <= isize::MAX as i64 {
                Some(*number as isize)
            } else {
                None
            },
            _ => None,
        }
    }
}

impl Element for u8 {
    open spec fn of_item(item: Item) -> Option<u8> {
        match item {
            Item::Integer(number) => if u8::MIN <= number <= u8::MAX {
                Some(number as u8)
            } else {
                None
            },
            _ => None,
        }
    }

    open spec fn spec_name() -> Seq<char> {
        "u8"@
    }

    fn name() -> (name: &'static str) {
        "u8"
    }

    fn from_item(item: &Item) -> (value: Option<u8>) {
        match item {
            Item::Integer(number) => if 0 <= *number && *number <= u8::MAX as i64 {
                Some(*number as u8)
            } else {
                None
            },
            _ => None,
        }
    }
}

impl Element for u16 {
    open spec fn of_item(item: Item) -> Option<u16> {
        match item {
            Item::Integer(number) => if u16::MIN <= number <= u16::MAX {
                Some(number as u16)
            } else {
                None
            },
            _ => None,
        }
    }

    open spec fn spec_name() -> Seq<char> {
        "u16"@
    }

    fn name() -> (name: &'static str) {
        "u16"
    }

    fn from_item(item: &Item) -> (value: Option<u16>) {
        match item {
            Item::Integer(number) => if 0 <= *number && *number <= u16::MAX as i64 {
                Some(*number as u16)
            } else {
                None
            },
            _ => None,
        }
    }
}

impl Element for u32 {
    open spec fn of_item(item: Item) -> Option<u32> {
        match item {
            Item::Integer(number) => if u32::MIN <= number <= u32::MAX {
                Some(number as u32)
            } else {
                None
            },
            _ => None,
        }
    }

    open spec fn spec_name() -> Seq<char> {
        "u32"@
    }

    fn name() -> (name: &'static str) {
        "u32"
    }

    fn from_item(item: &Item) -> (value: Option<u32>) {
        match item {
            Item::Integer(number) => if 0 <= *number && *number <= u32::MAX as i64 {
                Some(*number as u32)
            } else {
                None
            },
            _ => None,
        }
    }
}

impl Element for usize {
    open spec fn of_item(item: Item) -> Option<usize> {
        match item {
            Item::Integer(number) => if usize::MIN <= number <= usize::MAX {
                Some(number as usize)
            } else {
                None
            },
            _ => None,
        }
    }

    open spec fn spec_name() -> Seq<char> {
        "usize"@
    }

    fn name() -> (name: &'static str) {
        "usize"
    }

    fn from_item(item: &Item) -> (value: Option<usize>) {
        match item {
            Item::Integer(number) => if 0 <= *number && (*number as u64) <= (usize::MAX as u64) {
                Some(*number as usize)
            } else {
                None
            },
            _ => None,
        }
    }
}

impl Element for u64 {
    open spec fn of_item(item: Item) -> Option<u64> {
        match item {
            Item::Integer(number) => if u64::MIN <= number <= u64::MAX {
                Some(number as u64)
            } else {
                None
            },
            _ => None,
        }
    }

    open spec fn spec_name() -> Seq<char> {
        "u64"@
    }

    fn name() -> (name: &'static str) {
        "u64"
    }

    fn from_item(item: &Item) -> (value: Option<u64>) {
        match item {
            Item::Integer(number) => if 0 <= *number {
                Some(*number as u64)
            } else {
                None
            },
            _ => None,
        }
    }
}

impl Element for u128 {
    open spec fn of_item(item: Item) -> Option<u128> {
        match item {
            Item::Integer(number) => if u128::MIN <= number <= u128::MAX {
                Some(number as u128)
            } else {
                None
            },
            _ => None,
        }
    }

    open spec fn spec_name() -> Seq<char> {
        "u128"@
    }

    fn name() -> (name: &'static str) {
        "u128"
    }

    fn from_item(item: &Item) -> (value: Option<u128>) {
        match item {
            Item::Integer(number) => if 0 <= *number {
                Some(*number as u128)
            } else {
                None
            },
            _ => None,
        }
    }
}

impl Element for i64 {
    open spec fn of_item(item: Item) -> Option<i64> {
        match item {
            Item::Integer(number) => Some(number),
            _ => None,
        }
    }

    open spec fn spec_name() -> Seq<char> {
        "i64"@
    }

    fn name() -> (name: &'static str) {
        "i64"
    }

    fn from_item(item: &Item) -> (value: Option<i64>) {
        match item {
            Item::Integer(number) => Some(*number),
            _ => None,
        }
    }
}

impl Element for i128 {
    open spec fn of_item(item: Item) -> Option<i128> {
        match item {
            Item::Integer(number) => Some(number as i128),
            _ => None,
        }
    }

    open spec fn spec_name() -> Seq<char> {
        "i128"@
    }

    fn name() -> (name: &'static str) {
        "i128"
    }

    fn from_item(item: &Item) -> (value: Option<i128>) {
        match item {
            Item::Integer(number) => Some(*number as i128),
            _ => None,
        }
    }
}

/// The value that `returned` is as a `T`, where it is a single value of that
/// shape.
pub open spec fn single_as<T: Element>(returned: Seq<Native>) -> Option<T> {
    match single(returned) {
        Some(item) => T::of_item(item),
        None => None,
    }
}

/// Marshals what a chunk returned into one value of the shape `T`: nothing
/// returned counts as `nil`, several values fit no single shape.
pub fn marshal_single<T: Element>(returned: &Vec<Native>) -> (value: Option<T>)
    ensures
        value == single_as::<T>(returned@),
{
    if returned.len() == 0 {
        T::from_item(&Item::Nil)
    } else if returned.len() == 1 {
        T::from_item(&returned[0].item)
    } else {
        None
    }
}

/// The shapes the Lua backend can marshal a chunk's result into:
///
/// - `()`, where the chunk returned nothing or `nil`;
/// - every `Element`: `bool`, the integer types `i8` to `i128`, `u8` to
///   `u128`, `isize` and `usize`, `String`, and `Option` of an element;
/// - `Vec` of an element, for a table that is a sequence.
///
/// Floating-point numbers, maps and sequences of sequences are not among
/// them.
pub trait Evaluatable: Sized {
    /// Whether the values that a chunk returned marshal into `value`, where
    /// `None` says that they do not have this shape.
    spec fn marshals(returned: Seq<Native>, value: Option<Self>) -> bool;

    /// The shape's name in a failure.
    spec fn spec_shape() -> Seq<char>;

    /// The shape's name in a failure.
    fn shape() -> (name: &'static str)
        ensures
            name@ == Self::spec_shape(),
    ;

    /// Marshals the values that a chunk returned into this shape, or says
    /// that they do not have it. Nothing is coerced and nothing is dropped.
    fn marshal(returned: &Vec<Native>) -> (value: Option<Self>)
        ensures
            Self::marshals(returned@, value),
    ;
}

impl Evaluatable for () {
    /// No value: the chunk returned nothing, or a single `nil`.
    open spec fn marshals(returned: Seq<Native>, value: Option<()>) -> bool {
        value is Some <==> single(returned) == Some(Item::Nil)
    }

    open spec fn spec_shape() -> Seq<char> {
        "()"@
    }

    fn shape() -> (name: &'static str) {
        "()"
    }

    fn marshal(returned: &Vec<Native>) -> (value: Option<()>) {
        if returned.len() == 0 {
            Some(())
        } else if returned.len() == 1 {
            match returned[0].item {
                Item::Nil => Some(()),
                _ => None,
            }
        } else {
            None
        }
    }
}

impl<T: Element> Evaluatable for T {
    /// One value of the element's shape; nothing returned counts as `nil`.
    open spec fn marshals(returned: Seq<Native>, value: Option<T>) -> bool {
        value == single_as::<T>(returned)
    }

    open spec fn spec_shape() -> Seq<char> {
        T::spec_name()
    }

    fn shape() -> (name: &'static str) {
        T::name()
    }

    fn marshal(returned: &Vec<Native>) -> (value: Option<T>) {
        marshal_single(returned)
    }
}

/// Whether the entry of `entries` at `index` has the integer key `key`.
pub open spec fn keyed_at(entries: Seq<(Item, Item)>, key: int, index: int) -> bool {
    0 <= index < entries.len() && match entries[index].0 {
        Item::Integer(number) => number == key,
        _ => false,
    }
}

/// Whether no entry of `entries` before `index` has the integer key `key`.
pub open spec fn no_key_before(entries: Seq<(Item, Item)>, key: int, index: int) -> bool {
    forall|before: int| 0 <= before < index ==> !keyed_at(entries, key, before)
}

/// Whether `index` is the first place in `entries` with the integer key
/// `key`.
pub open spec fn first_keyed_at(entries: Seq<(Item, Item)>, key: int, index: int) -> bool {
    keyed_at(entries, key, index) && no_key_before(entries, key, index)
}

/// The first place in `entries` with the integer key `key`.
pub open spec fn first_place(entries: Seq<(Item, Item)>, key: int) -> Option<int> {
    if exists|index: int| first_keyed_at(entries, key, index) {
        Some(choose|index: int| first_keyed_at(entries, key, index))
    } else {
        None
    }
}

/// The value that `entries` holds at `position` of a sequence, that is under
/// the integer key `position + 1`, as a `T`.
pub open spec fn element_at<T: Element>(entries: Seq<(Item, Item)>, position: int) -> Option<T> {
    match first_place(entries, position + 1) {
        Some(index) => T::of_item(entries[index].1),
        None => None,
    }
}

/// Whether `entries` are those of a sequence of `T`: under each key from 1 to
/// the number of entries there is a value, and it is a `T`. A table with a
/// gap or with any other key is no sequence.
pub open spec fn is_sequence_of<T: Element>(entries: Seq<(Item, Item)>) -> bool {
    forall|position: int|
        0 <= position < entries.len() ==> (#[trigger] element_at::<T>(entries, position)) is Some
}

/// The first place of a key is the only place that is first.
pub proof fn lemma_first_place_is_unique(entries: Seq<(Item, Item)>, key: int, index: int)
    requires
        first_keyed_at(entries, key, index),
    ensures
        first_place(entries, key) == Some(index),
{
    let chosen = choose|place: int| first_keyed_at(entries, key, place);
    assert(first_keyed_at(entries, key, chosen));
    if chosen < index {
        assert(!keyed_at(entries, key, chosen));
    }
    if index < chosen {
        assert(!keyed_at(entries, key, index));
    }
}

/// A key that stands nowhere has no first place.
pub proof fn lemma_absent_key_has_no_place(entries: Seq<(Item, Item)>, key: int)
    requires
        no_key_before(entries, key, entries.len() as int),
    ensures
        first_place(entries, key) is None,
{
    assert forall|index: int| !first_keyed_at(entries, key, index) by {
        if 0 <= index < entries.len() {
            assert(!keyed_at(entries, key, index));
        }
    }
}

/// Where each key of a sequence stands: for each position, counted from 0,
/// the first place of `entries` with the integer key `position + 1`, if there
/// is one. One pass over the entries.
pub fn first_places(entries: &Vec<(Item, Item)>) -> (places: Vec<Option<usize>>)
    ensures
        places@.len() == entries@.len(),
        forall|position: int|
            0 <= position < entries@.len() ==> match #[trigger] places@[position] {
                Some(place) => first_place(entries@, position + 1) == Some(place as int),
                None => first_place(entries@, position + 1) is None,
            },
{
    let count = entries.len();
    let mut places: Vec<Option<usize>> = Vec::new();
    while places.len() < count
        invariant
            places@.len() <= count,
            forall|position: int| 0 <= position < places@.len() ==> places@[position] is None,
        decreases count - places.len(),
    {
        places.push(None);
    }
    let mut index: usize = 0;
    while index < count
        invariant
            count == entries@.len(),
            places@.len() == count,
            index <= count,
            forall|position: int|
                0 <= position < count ==> match #[trigger] places@[position] {
                    Some(place) => first_keyed_at(entries@, position + 1, place as int),
                    None => no_key_before(entries@, position + 1, index as int),
                },
        decreases count - index,
    {
        let ghost before = places@;
        let mut taken: bool = false;
        if let Item::Integer(number) = entries[index].0 {
            if 1 <= number && ((number - 1) as u64) < (count as u64) {
                let position: usize = (number - 1) as usize;
                if places[position].is_none() {
                    places.set(position, Some(index));
                    taken = true;
                }
            }
        }
        assert forall|position: int| 0 <= position < count implies match #[trigger] places@[position] {
            Some(place) => first_keyed_at(entries@, position + 1, place as int),
            None => no_key_before(entries@, position + 1, index + 1),
        } by {
            match before[position] {
                Some(place) => {},
                None => {
                    if places@[position] is None {
                        assert(!keyed_at(entries@, position + 1, index as int));
                    }
                },
            }
        }
        index = index + 1;
    }
    proof {
        assert forall|position: int| 0 <= position < entries@.len() implies match #[trigger] places@[position] {
            Some(place) => first_place(entries@, position + 1) == Some(place as int),
            None => first_place(entries@, position + 1) is None,
        } by {
            match places@[position] {
                Some(place) => lemma_first_place_is_unique(entries@, position + 1, place as int),
                None => lemma_absent_key_has_no_place(entries@, position + 1),
            }
        }
    }
    places
}

impl<T: Element> Evaluatable for Vec<T> {
    /// A sequence: the chunk returned one table whose keys are exactly 1 to
    /// its number of entries, and the value under each key is a `T`. The
    /// values come in the order of their keys.
    open spec fn marshals(returned: Seq<Native>, value: Option<Vec<T>>) -> bool {
        let fits = returned.len() == 1 && returned[0].item == Item::Table && is_sequence_of::<T>(
            returned[0].entries@,
        );
        match value {
            None => !fits,
            Some(values) => {
                &&& fits
                &&& values@.len() == returned[0].entries@.len()
                &&& forall|position: int|
                    0 <= position < values@.len() ==> element_at::<T>(
                        returned[0].entries@,
                        position,
                    ) == Some(#[trigger] values@[position])
            },
        }
    }

    open spec fn spec_shape() -> Seq<char> {
        "Vec"@
    }

    fn shape() -> (name: &'static str) {
        "Vec"
    }

    fn marshal(returned: &Vec<Native>) -> (value: Option<Vec<T>>) {
        if returned.len() != 1 {
            return None;
        }
        match returned[0].item {
            Item::Table => {},
            _ => {
                return None;
            },
        }
        let entries = &returned[0].entries;
        let places = first_places(entries);
        let mut values: Vec<T> = Vec::new();
        let mut position: usize = 0;
        while position < entries.len()
            invariant
                returned@.len() == 1,
                entries@ == returned@[0].entries@,
                places@.len() == entries@.len(),
                forall|at: int|
                    0 <= at < entries@.len() ==> match #[trigger] places@[at] {
                        Some(place) => first_place(entries@, at + 1) == Some(place as int),
                        None => first_place(entries@, at + 1) is None,
                    },
                position <= entries.len(),
                values@.len() == position,
                forall|before: int|
                    0 <= before < position ==> element_at::<T>(entries@, before) == Some(
                        #[trigger] values@[before],
                    ),
            decreases entries.len() - position,
        {
            let element = match places[position] {
                Some(place) => {
                    proof {
                        lemma_place_is_within(entries@, position + 1, place as int);
                    }
                    T::from_item(&entries[place].1)
                },
                None => None,
            };
            match element {
                Some(element) => values.push(element),
                None => {
                    assert(element_at::<T>(entries@, position as int) is None);
                    return None;
                },
            }
            position = position + 1;
        }
        assert forall|at: int| 0 <= at < entries@.len() implies (#[trigger] element_at::<T>(
            entries@,
            at,
        )) is Some by {
            assert(element_at::<T>(entries@, at) == Some(values@[at]));
        }
        Some(values)
    }
}

/// The first place of a key, where there is one, is a place of `entries`.
pub proof fn lemma_place_is_within(entries: Seq<(Item, Item)>, key: int, index: int)
    requires
        first_place(entries, key) == Some(index),
    ensures
        0 <= index < entries.len(),
        first_keyed_at(entries, key, index),
{
}

/// What the backend hands to the caller for what the interpreter handed back:
/// the interpreter's failure as it is; the marshalled value where the
/// returned values have the shape `T`; else the conversion failure that names
/// what was returned and the shape asked for.
pub open spec fn delivered<T: Evaluatable>(
    native: EvalResult<Vec<Native>>,
    outcome: EvalResult<T>,
) -> bool {
    match native {
        Err(error) => outcome == Err::<T, EvalError>(error),
        Ok(returned) => match outcome {
            Ok(value) => T::marshals(returned@, Some(value)),
            Err(error) => T::marshals(returned@, None) && error == conversion_error(
                spec_kind_of(returned@),
                T::spec_shape(),
            ),
        },
    }
}

/// Marshals what the interpreter handed back into the shape `T`.
pub fn deliver<T: Evaluatable>(native: EvalResult<Vec<Native>>) -> (outcome: EvalResult<T>)
    ensures
        delivered(native, outcome),
{
    match native {
        Err(error) => Err(error),
        Ok(returned) => match T::marshal(&returned) {
            Some(value) => Ok(value),
            None => Err(mismatch(kind_of(&returned), T::shape())),
        },
    }
}

/// Runs `script` as one top-level chunk in an interpreter created for this
/// call and marshals what it returns into `T`. Only a `return` statement
/// hands values back. Syntax errors, runtime errors and results that do not
/// have the shape `T` all come back as the interpreter's error.
pub fn eval<T: Evaluatable>(script: &str) -> (outcome: EvalResult<T>)
    ensures
        exists|native: EvalResult<Vec<Native>>|
            call_ensures(run, (script,), native) && delivered(native, outcome),
{
    deliver(run(script))
}

/// A failure of the interpreter is handed on as it is, whatever shape was
/// asked for.
pub proof fn lemma_interpreter_failure_is_handed_on<T: Evaluatable>(
    error: EvalError,
    outcome: EvalResult<T>,
)
    requires
        delivered::<T>(Err(error), outcome),
    ensures
        outcome == Err::<T, EvalError>(error),
{
}

/// A chunk that returns one string, asked for text, gives exactly that
/// string.
pub proof fn lemma_text_is_delivered_unchanged(
    returned: Vec<Native>,
    text: String,
    outcome: EvalResult<String>,
)
    requires
        returned@.len() == 1,
        returned@[0].item == Item::Text(text),
        delivered::<String>(Ok(returned), outcome),
    ensures
        outcome == Ok::<String, EvalError>(text),
{
}

/// A chunk that returns nothing, asked for no value, succeeds.
pub proof fn lemma_nothing_is_delivered_as_unit(returned: Vec<Native>, outcome: EvalResult<()>)
    requires
        returned@.len() == 0,
        delivered::<()>(Ok(returned), outcome),
    ensures
        outcome is Ok,
{
}

/// A chunk that returns a table whose entries stand in the order of their
/// keys 1, 2, 3 and so on, each value a `T`, gives exactly those values in
/// that order.
pub proof fn lemma_sequence_is_delivered_in_order<T: Element>(
    returned: Vec<Native>,
    outcome: EvalResult<Vec<T>>,
)
    requires
        returned@.len() == 1,
        returned@[0].item == Item::Table,
        forall|place: int|
            0 <= place < returned@[0].entries@.len() ==> (#[trigger] returned@[0].entries@[place]).0
                == Item::Integer((place + 1) as i64) && place + 1 <= i64::MAX && T::of_item(
                returned@[0].entries@[place].1,
            ) is Some,
        delivered::<Vec<T>>(Ok(returned), outcome),
    ensures
        outcome matches Ok(values) && values@.len() == returned@[0].entries@.len() && forall|
            place: int,
        |
            0 <= place < values@.len() ==> Some(#[trigger] values@[place]) == T::of_item(
                returned@[0].entries@[place].1,
            ),
{
    let entries = returned@[0].entries@;
    assert forall|position: int| 0 <= position < entries.len() implies first_place(
        entries,
        position + 1,
    ) == Some(position) by {
        let key = position + 1;
        assert(entries[position].0 == Item::Integer((position + 1) as i64));
        assert forall|before: int| 0 <= before < position implies !keyed_at(
            entries,
            key,
            before,
        ) by {
            assert(entries[before].0 == Item::Integer((before + 1) as i64));
        }
        lemma_first_place_is_unique(entries, key, position);
    }
    assert forall|position: int| 0 <= position < entries.len() implies (#[trigger] element_at::<T>(
        entries,
        position,
    )) is Some by {
        assert(first_place(entries, position + 1) == Some(position));
    }
    assert(is_sequence_of::<T>(entries));
    match outcome {
        Ok(values) => {
            assert forall|place: int| 0 <= place < values@.len() implies Some(
                #[trigger] values@[place],
            ) == T::of_item(entries[place].1) by {
                assert(first_place(entries, place + 1) == Some(place));
                assert(element_at::<T>(entries, place) == Some(values@[place]));
            }
        },
        Err(_) => {},
    }
}

/// What is returned is never coerced: a value of another kind than the one
/// asked for (here a number where text is asked for) gives the conversion
/// failure that names both.
pub proof fn lemma_number_is_not_text(
    returned: Vec<Native>,
    number: i64,
    outcome: EvalResult<String>,
)
    requires
        returned@.len() == 1,
        returned@[0].item == Item::Integer(number),
        delivered::<String>(Ok(returned), outcome),
    ensures
        outcome == Err::<String, EvalError>(conversion_error("integer"@, "String"@)),
{
}

/// What is returned is never truncated: several values fit no shape that
/// holds one value, and no value but `nil` fits the shape without a value.
pub proof fn lemma_nothing_is_dropped<T: Element>(
    returned: Vec<Native>,
    as_one: EvalResult<Option<T>>,
    as_none: EvalResult<()>,
)
    requires
        delivered::<Option<T>>(Ok(returned), as_one),
        delivered::<()>(Ok(returned), as_none),
    ensures
        returned@.len() > 1 ==> as_one is Err && as_none is Err,
        returned@.len() == 1 && returned@[0].item != Item::Nil ==> as_none is Err,
{
}

/// Copies one value out of the interpreter: what it is, and for a table its
/// entries. Whether that succeeds is the interpreter's to say.
fn copy_value(value: &rlua::prelude::LuaValue<'_>) -> EvalResult<Native> {
    let item = match classify(value) {
        Ok(item) => item,
        Err(error) => {
            return Err(error);
        },
    };
    match entries_of(value) {
        Ok(entries) => Ok(Native { item, entries }),
        Err(error) => Err(error),
    }
}

/// Copies the values that a chunk returned out of the table into which the
/// interpreter packed them, in their order and one at a time, so that no more
/// than one of them is held inside the interpreter at once. The first value
/// that cannot be copied (a string that is not UTF-8) ends the copying with
/// the interpreter's failure for it.
fn snapshot(packed: rlua::prelude::LuaTable<'_>) -> EvalResult<Vec<Native>> {
    let count = match packed_count(&packed) {
        Ok(count) => count,
        Err(error) => {
            return Err(error);
        },
    };
    let mut natives: Vec<Native> = Vec::new();
    let mut index: i64 = 0;
    while index < count
        invariant
            0 <= index,
        decreases count - index,
    {
        index = index + 1;
        let value = match packed_value(&packed, index) {
            Ok(value) => value,
            Err(error) => {
                return Err(error);
            },
        };
        match copy_value(&value) {
            Ok(native) => natives.push(native),
            Err(error) => {
                return Err(error);
            },
        }
    }
    Ok(natives)
}

/// `rlua::Lua::new`, `Lua::context`, `Context::load`, `Chunk::into_function`
/// and `Chunk::call`: makes an interpreter with the standard libraries, has
/// it compile `script` as a block, run it and pack every value that it
/// returned into one table on the Lua side, hands that table to `snapshot`,
/// and drops the interpreter.
///
/// No result is promised. The script can read the clock, files and standard
/// input, so the same text need not give the same outcome twice; it can end
/// the process, and the call returns only when the script ends. The values
/// are taken out of the packed table one at a time, because rlua panics
/// where more than some hundred thousand of its handles are held at once.
#[verifier::external_body]
pub fn run(script: &str) -> EvalResult<Vec<Native>> {
    rlua::Lua::new().context(|context| {
        let chunk = context.load(script).into_function()?;
        snapshot(context.load("return table.pack((...)())").call(chunk)?)
    })
}

/// `rlua::Table::raw_get` under the key `"n"`, where Lua's `table.pack`
/// leaves the number of values that it packed.
#[verifier::external_body]
fn packed_count(packed: &rlua::prelude::LuaTable<'_>) -> EvalResult<i64> {
    packed.raw_get("n")
}

/// `rlua::Table::raw_get` under an integer key: the value at `index`, `nil`
/// where there is none.
#[verifier::external_body]
fn packed_value<'vm>(packed: &rlua::prelude::LuaTable<'vm>, index: i64) -> EvalResult<
    rlua::prelude::LuaValue<'vm>,
> {
    packed.raw_get(index)
}

/// Tells the variants of `rlua::Value` apart, one for one. A number, a
/// boolean and a string keep what they hold; `rlua::String::to_str` gives the
/// string's text, or rlua's failure where the bytes are not UTF-8. Handles
/// into the interpreter are left behind.
#[verifier::external_body]
fn classify(value: &rlua::prelude::LuaValue<'_>) -> EvalResult<Item> {
    Ok(match value {
        rlua::Value::Nil => Item::Nil,
        rlua::Value::Boolean(flag) => Item::Boolean(*flag),
        rlua::Value::LightUserData(_) => Item::LightUserData,
        rlua::Value::Integer(number) => Item::Integer(*number),
        rlua::Value::Number(_) => Item::Number,
        rlua::Value::String(text) => Item::Text(text.to_str()?.to_owned()),
        rlua::Value::Table(_) => Item::Table,
        rlua::Value::Function(_) => Item::Function,
        rlua::Value::Thread(_) => Item::Thread,
        rlua::Value::UserData(_) => Item::UserData,
        rlua::Value::Error(_) => Item::Failure,
    })
}

/// `rlua::Table::pairs`: every key and value of a table, as the interpreter
/// walks them without calling metamethods, each pair turned into plain items
/// by `classify` as the walk yields it, so that the handles of one pair only
/// are held at a time. No entries for a value that is no table.
#[verifier::external_body]
fn entries_of(value: &rlua::prelude::LuaValue<'_>) -> EvalResult<Vec<(Item, Item)>> {
    match value {
        rlua::Value::Table(table) => table
            .clone()
            .pairs::<rlua::Value, rlua::Value>()
            .map(|pair| pair.and_then(|(key, value)| Ok((classify(&key)?, classify(&value)?))))
            .collect(),
        _ => Ok(Vec::new()),
    }
}

/// Builds `rlua::Error::FromLuaConversionError`, rlua's failure for a Lua
/// value of the kind `from` that cannot become a host value of the shape
/// `to`, with no further message.
#[verifier::external_body]
fn mismatch(from: &'static str, to: &'static str) -> (error: EvalError)
    ensures
        error == conversion_error(from@, to@),
{
    rlua::Error::FromLuaConversionError { from, to, message: None }
}

/// `ToString::to_string` on an `rlua::Error`, which writes the error through
/// its `Display` impl: a fixed phrase for the kind of error, followed by the
/// message or the cause that the error carries. The text depends on the error
/// alone, so it has a name.
#[verifier::external_body]
pub(crate) fn describe(error: &EvalError) -> (text: String)
    ensures
        text@ == diagnostic_text(*error),
{
    error.to_string()
}

} // verus!

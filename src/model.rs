use vstd::prelude::*;
use vstd::string::StringExecFns;

verus! {

/// Declared index of a pallet, of a call, an event or an error.
pub type Index = u32;

/// Identity of a pallet inside a runtime: its declared index.
pub type PalletId = Index;

/// The five kinds of items that a pallet exposes.
#[derive(Clone, Copy, Debug, PartialEq, Eq, Structural)]
pub enum ItemKind {
    Call,
    Event,
    Error,
    Storage,
    Constant,
}

/// Identity of an item inside one pallet. Calls, events and errors are
/// identified by their declared index, storage entries and constants by their
/// name; the kind is part of the identity, so that a call with index `0` and a
/// storage entry named `"0"` never meet.
#[derive(Debug)]
pub enum ItemKey {
    Call(Index),
    Event(Index),
    Error(Index),
    Storage(String),
    Constant(String),
}

/// Mathematical form of an [`ItemKey`].
pub enum KeyView {
    Call(u32),
    Event(u32),
    Error(u32),
    Storage(Seq<char>),
    Constant(Seq<char>),
}

impl View for ItemKey {
    type V = KeyView;

    open spec fn view(&self) -> KeyView {
        match self {
            ItemKey::Call(i) => KeyView::Call(*i),
            ItemKey::Event(i) => KeyView::Event(*i),
            ItemKey::Error(i) => KeyView::Error(*i),
            ItemKey::Storage(s) => KeyView::Storage(s@),
            ItemKey::Constant(s) => KeyView::Constant(s@),
        }
    }
}

impl ItemKey {
    /// Whether two keys denote the same item.
    pub fn same(&self, other: &ItemKey) -> (r: bool)
        ensures
            r == (self@ == other@),
    {
        match (self, other) {
            (ItemKey::Call(a), ItemKey::Call(b)) => *a == *b,
            (ItemKey::Event(a), ItemKey::Event(b)) => *a == *b,
            (ItemKey::Error(a), ItemKey::Error(b)) => *a == *b,
            (ItemKey::Storage(a), ItemKey::Storage(b)) => *a == *b,
            (ItemKey::Constant(a), ItemKey::Constant(b)) => *a == *b,
            _ => false,
        }
    }

    pub fn duplicate(&self) -> (r: ItemKey)
        ensures
            r@ == self@,
    {
        match self {
            ItemKey::Call(i) => ItemKey::Call(*i),
            ItemKey::Event(i) => ItemKey::Event(*i),
            ItemKey::Error(i) => ItemKey::Error(*i),
            ItemKey::Storage(s) => ItemKey::Storage(s.clone()),
            ItemKey::Constant(s) => ItemKey::Constant(s.clone()),
        }
    }

    pub fn kind(&self) -> (r: ItemKind)
        ensures
            r == key_kind(self@),
    {
        match self {
            ItemKey::Call(_) => ItemKind::Call,
            ItemKey::Event(_) => ItemKind::Event,
            ItemKey::Error(_) => ItemKind::Error,
            ItemKey::Storage(_) => ItemKind::Storage,
            ItemKey::Constant(_) => ItemKind::Constant,
        }
    }
}

pub open spec fn key_kind(k: KeyView) -> ItemKind {
    match k {
        KeyView::Call(_) => ItemKind::Call,
        KeyView::Event(_) => ItemKind::Event,
        KeyView::Error(_) => ItemKind::Error,
        KeyView::Storage(_) => ItemKind::Storage,
        KeyView::Constant(_) => ItemKind::Constant,
    }
}

/// The key that an item of kind `kind` with declared index `index` has.
pub open spec fn indexed_key(kind: ItemKind, index: u32) -> KeyView {
    match kind {
        ItemKind::Call => KeyView::Call(index),
        ItemKind::Event => KeyView::Event(index),
        _ => KeyView::Error(index),
    }
}

/// One argument of a call, an event or an error: its name (empty when the
/// field is anonymous) and the name of its type.
#[derive(Debug)]
pub struct Arg {
    pub name: String,
    pub ty: String,
}

impl View for Arg {
    type V = (Seq<char>, Seq<char>);

    open spec fn view(&self) -> (Seq<char>, Seq<char>) {
        (self.name@, self.ty@)
    }
}

impl Arg {
    pub fn duplicate(&self) -> (r: Arg)
        ensures
            r@ == self@,
    {
        Arg { name: self.name.clone(), ty: self.ty.clone() }
    }
}

/// The ordered arguments of a call, an event or an error. The order is the
/// order of encoding, and is part of the signature.
#[derive(Debug)]
pub struct Signature {
    pub args: Vec<Arg>,
}

pub open spec fn args_view(args: Seq<Arg>) -> Seq<(Seq<char>, Seq<char>)> {
    args.map_values(|a: Arg| a@)
}

impl View for Signature {
    type V = Seq<(Seq<char>, Seq<char>)>;

    open spec fn view(&self) -> Seq<(Seq<char>, Seq<char>)> {
        args_view(self.args@)
    }
}

impl Signature {
    pub fn duplicate(&self) -> (r: Signature)
        ensures
            r@ == self@,
    {
        let mut args: Vec<Arg> = Vec::new();
        let mut i: usize = 0;
        while i < self.args.len()
            invariant
                i <= self.args.len(),
                args.len() == i,
                forall|j: int| 0 <= j < i ==> args@[j]@ == self.args@[j]@,
            decreases self.args.len() - i,
        {
            args.push(self.args[i].duplicate());
            i = i + 1;
        }
        let r = Signature { args };
        assert(r@ =~= self@);
        r
    }

    /// Whether two signatures have the same arguments, in the same order.
    pub fn same(&self, other: &Signature) -> (r: bool)
        ensures
            r == (self@ == other@),
    {
        if self.args.len() != other.args.len() {
            assert(self@.len() != other@.len());
            return false;
        }
        let mut i: usize = 0;
        while i < self.args.len()
            invariant
                i <= self.args.len(),
                self.args.len() == other.args.len(),
                forall|j: int| 0 <= j < i ==> self@[j] == other@[j],
            decreases self.args.len() - i,
        {
            if self.args[i].name != other.args[i].name || self.args[i].ty != other.args[i].ty {
                assert(self@[i as int] != other@[i as int]);
                return false;
            }
            i = i + 1;
        }
        assert(self@ =~= other@);
        true
    }
}

/// The characters of each line of a text.
pub open spec fn texts(s: Seq<String>) -> Seq<Seq<char>> {
    s.map_values(|t: String| t@)
}

/// Copies the lines of a text.
pub fn copy_texts(v: &Vec<String>) -> (r: Vec<String>)
    ensures
        texts(r@) == texts(v@),
{
    let mut r: Vec<String> = Vec::new();
    let mut i: usize = 0;
    while i < v.len()
        invariant
            i <= v.len(),
            r.len() == i,
            forall|j: int| 0 <= j < i ==> r@[j]@ == v@[j]@,
        decreases v.len() - i,
    {
        r.push(v[i].clone());
        i = i + 1;
    }
    assert(texts(r@) =~= texts(v@));
    r
}

/// Copies a byte string.
pub fn copy_bytes(b: &Vec<u8>) -> (r: Vec<u8>)
    ensures
        r@ == b@,
{
    let mut r: Vec<u8> = Vec::new();
    let mut i: usize = 0;
    while i < b.len()
        invariant
            i <= b.len(),
            r@ == b@.subrange(0, i as int),
        decreases b.len() - i,
    {
        r.push(b[i]);
        i = i + 1;
        assert(r@ =~= b@.subrange(0, i as int));
    }
    assert(b@.subrange(0, i as int) =~= b@);
    r
}

/// Whether two byte strings are equal.
pub fn same_bytes(a: &Vec<u8>, b: &Vec<u8>) -> (r: bool)
    ensures
        r == (a@ == b@),
{
    if a.len() != b.len() {
        return false;
    }
    let mut i: usize = 0;
    while i < a.len()
        invariant
            i <= a.len(),
            a.len() == b.len(),
            forall|j: int| 0 <= j < i ==> a@[j] == b@[j],
        decreases a.len() - i,
    {
        if a[i] != b[i] {
            return false;
        }
        i = i + 1;
    }
    assert(a@ =~= b@);
    true
}

/// What the comparison sees of an item. Documentation is not part of it, so
/// it never takes part in equality nor in compatibility. Fields that a kind
/// does not have are empty.
pub struct ItemView {
    pub key: KeyView,
    pub name: Seq<char>,
    pub args: Seq<(Seq<char>, Seq<char>)>,
    pub ty: Seq<char>,
    pub value: Seq<u8>,
}

/// Common behaviour of the items that a pallet holds.
pub trait Entry: Sized {
    spec fn entry_view(&self) -> ItemView;

    /// The documentation the item carries, line by line.
    spec fn entry_docs(&self) -> Seq<Seq<char>>;

    fn key(&self) -> (k: ItemKey)
        ensures
            k@ == self.entry_view().key,
    ;

    fn duplicate(&self) -> (r: Self)
        ensures
            r.entry_view() == self.entry_view(),
            r.entry_docs() == self.entry_docs(),
    ;

    fn to_item(&self) -> (r: PalletItem)
        ensures
            r@ == self.entry_view(),
            item_docs(r) == self.entry_docs(),
    ;
}

/// Items identified by a declared index: calls, events and errors.
pub trait Indexed: Entry {
    spec fn item_kind() -> ItemKind;

    fn from_parts(index: Index, name: String, args: Vec<Arg>, docs: Vec<String>) -> (r: Self)
        ensures
            r.entry_view() == indexed_view(Self::item_kind(), index, name@, args_view(args@)),
            r.entry_docs() == texts(docs@),
    ;
}

/// A dispatchable call of a pallet.
#[derive(Debug)]
pub struct Call {
    pub index: Index,
    pub name: String,
    pub signature: Signature,
    pub docs: Vec<String>,
}

impl View for Call {
    type V = ItemView;

    open spec fn view(&self) -> ItemView {
        indexed_view(ItemKind::Call, self.index, self.name@, self.signature@)
    }
}

/// An event that a pallet emits.
#[derive(Debug)]
pub struct Event {
    pub index: Index,
    pub name: String,
    pub signature: Signature,
    pub docs: Vec<String>,
}

impl View for Event {
    type V = ItemView;

    open spec fn view(&self) -> ItemView {
        indexed_view(ItemKind::Event, self.index, self.name@, self.signature@)
    }
}

/// An error that a pallet returns.
#[derive(Debug)]
pub struct Error {
    pub index: Index,
    pub name: String,
    pub signature: Signature,
    pub docs: Vec<String>,
}

impl View for Error {
    type V = ItemView;

    open spec fn view(&self) -> ItemView {
        indexed_view(ItemKind::Error, self.index, self.name@, self.signature@)
    }
}

/// A storage entry of a pallet: its type, rendered as text, and its
/// encoded default value.
#[derive(Debug)]
pub struct Storage {
    pub name: String,
    pub ty: String,
    pub default_value: Vec<u8>,
    pub docs: Vec<String>,
}

/// A constant of a pallet and its encoded value.
#[derive(Debug)]
pub struct Constant {
    pub name: String,
    pub value: Vec<u8>,
    pub docs: Vec<String>,
}

/// The view of an item that has a declared index and a signature.
pub open spec fn indexed_view(
    kind: ItemKind,
    index: u32,
    name: Seq<char>,
    args: Seq<(Seq<char>, Seq<char>)>,
) -> ItemView {
    ItemView {
        key: indexed_key(kind, index),
        name,
        args,
        ty: Seq::empty(),
        value: Seq::empty(),
    }
}

impl Entry for Call {
    open spec fn entry_view(&self) -> ItemView {
        self@
    }

    open spec fn entry_docs(&self) -> Seq<Seq<char>> {
        texts(self.docs@)
    }

    fn key(&self) -> (k: ItemKey) {
        ItemKey::Call(self.index)
    }

    fn duplicate(&self) -> (r: Self) {
        Call {
            index: self.index,
            name: self.name.clone(),
            signature: self.signature.duplicate(),
            docs: copy_texts(&self.docs),
        }
    }

    fn to_item(&self) -> (r: PalletItem) {
        PalletItem::Call(self.duplicate())
    }
}

impl Indexed for Call {
    open spec fn item_kind() -> ItemKind {
        ItemKind::Call
    }

    fn from_parts(index: Index, name: String, args: Vec<Arg>, docs: Vec<String>) -> (r: Self) {
        Call { index, name, signature: Signature { args }, docs }
    }
}

impl Entry for Event {
    open spec fn entry_view(&self) -> ItemView {
        self@
    }

    open spec fn entry_docs(&self) -> Seq<Seq<char>> {
        texts(self.docs@)
    }

    fn key(&self) -> (k: ItemKey) {
        ItemKey::Event(self.index)
    }

    fn duplicate(&self) -> (r: Self) {
        Event {
            index: self.index,
            name: self.name.clone(),
            signature: self.signature.duplicate(),
            docs: copy_texts(&self.docs),
        }
    }

    fn to_item(&self) -> (r: PalletItem) {
        PalletItem::Event(self.duplicate())
    }
}

impl Indexed for Event {
    open spec fn item_kind() -> ItemKind {
        ItemKind::Event
    }

    fn from_parts(index: Index, name: String, args: Vec<Arg>, docs: Vec<String>) -> (r: Self) {
        Event { index, name, signature: Signature { args }, docs }
    }
}

impl Entry for Error {
    open spec fn entry_view(&self) -> ItemView {
        self@
    }

    open spec fn entry_docs(&self) -> Seq<Seq<char>> {
        texts(self.docs@)
    }

    fn key(&self) -> (k: ItemKey) {
        ItemKey::Error(self.index)
    }

    fn duplicate(&self) -> (r: Self) {
        Error {
            index: self.index,
            name: self.name.clone(),
            signature: self.signature.duplicate(),
            docs: copy_texts(&self.docs),
        }
    }

    fn to_item(&self) -> (r: PalletItem) {
        PalletItem::Error(self.duplicate())
    }
}

impl Indexed for Error {
    open spec fn item_kind() -> ItemKind {
        ItemKind::Error
    }

    fn from_parts(index: Index, name: String, args: Vec<Arg>, docs: Vec<String>) -> (r: Self) {
        Error { index, name, signature: Signature { args }, docs }
    }
}

impl View for Storage {
    type V = ItemView;

    open spec fn view(&self) -> ItemView {
        ItemView {
            key: KeyView::Storage(self.name@),
            name: self.name@,
            args: Seq::empty(),
            ty: self.ty@,
            value: self.default_value@,
        }
    }
}

impl Entry for Storage {
    open spec fn entry_view(&self) -> ItemView {
        self@
    }

    open spec fn entry_docs(&self) -> Seq<Seq<char>> {
        texts(self.docs@)
    }

    fn key(&self) -> (k: ItemKey) {
        ItemKey::Storage(self.name.clone())
    }

    fn duplicate(&self) -> (r: Self) {
        Storage {
            name: self.name.clone(),
            ty: self.ty.clone(),
            default_value: copy_bytes(&self.default_value),
            docs: copy_texts(&self.docs),
        }
    }

    fn to_item(&self) -> (r: PalletItem) {
        PalletItem::Storage(self.duplicate())
    }
}

impl View for Constant {
    type V = ItemView;

    open spec fn view(&self) -> ItemView {
        ItemView {
            key: KeyView::Constant(self.name@),
            name: self.name@,
            args: Seq::empty(),
            ty: Seq::empty(),
            value: self.value@,
        }
    }
}

impl Entry for Constant {
    open spec fn entry_view(&self) -> ItemView {
        self@
    }

    open spec fn entry_docs(&self) -> Seq<Seq<char>> {
        texts(self.docs@)
    }

    fn key(&self) -> (k: ItemKey) {
        ItemKey::Constant(self.name.clone())
    }

    fn duplicate(&self) -> (r: Self) {
        Constant {
            name: self.name.clone(),
            value: copy_bytes(&self.value),
            docs: copy_texts(&self.docs),
        }
    }

    fn to_item(&self) -> (r: PalletItem) {
        PalletItem::Constant(self.duplicate())
    }
}

/// The documentation an item carries.
pub open spec fn item_docs(it: PalletItem) -> Seq<Seq<char>> {
    match it {
        PalletItem::Call(c) => texts(c.docs@),
        PalletItem::Event(e) => texts(e.docs@),
        PalletItem::Error(e) => texts(e.docs@),
        PalletItem::Storage(s) => texts(s.docs@),
        PalletItem::Constant(c) => texts(c.docs@),
    }
}

/// An item of a pallet, of one of the five kinds.
#[derive(Debug)]
pub enum PalletItem {
    Call(Call),
    Event(Event),
    Error(Error),
    Storage(Storage),
    Constant(Constant),
}

impl View for PalletItem {
    type V = ItemView;

    open spec fn view(&self) -> ItemView {
        match self {
            PalletItem::Call(c) => c@,
            PalletItem::Event(e) => e@,
            PalletItem::Error(e) => e@,
            PalletItem::Storage(s) => s@,
            PalletItem::Constant(c) => c@,
        }
    }
}

impl Entry for PalletItem {
    open spec fn entry_view(&self) -> ItemView {
        self@
    }

    open spec fn entry_docs(&self) -> Seq<Seq<char>> {
        item_docs(*self)
    }

    fn key(&self) -> (k: ItemKey) {
        self.item_key()
    }

    fn duplicate(&self) -> (r: Self) {
        self.to_item()
    }

    fn to_item(&self) -> (r: PalletItem) {
        match self {
            PalletItem::Call(c) => c.to_item(),
            PalletItem::Event(e) => e.to_item(),
            PalletItem::Error(e) => e.to_item(),
            PalletItem::Storage(s) => s.to_item(),
            PalletItem::Constant(c) => c.to_item(),
        }
    }
}

impl PalletItem {
    pub fn item_key(&self) -> (k: ItemKey)
        ensures
            k@ == self@.key,
    {
        match self {
            PalletItem::Call(c) => c.key(),
            PalletItem::Event(e) => e.key(),
            PalletItem::Error(e) => e.key(),
            PalletItem::Storage(s) => s.key(),
            PalletItem::Constant(c) => c.key(),
        }
    }

    /// The name under which the item was declared.
    pub fn name(&self) -> (r: &String)
        ensures
            r@ == self@.name,
    {
        match self {
            PalletItem::Call(c) => &c.name,
            PalletItem::Event(e) => &e.name,
            PalletItem::Error(e) => &e.name,
            PalletItem::Storage(s) => &s.name,
            PalletItem::Constant(c) => &c.name,
        }
    }

    /// The fields of `self` (the old item) that differ in `other` (the new
    /// one), in the order name, signature, type, value.
    pub fn field_changes(&self, other: &PalletItem) -> (r: Vec<FieldChange>)
        ensures
            r@ == field_changes(self@, other@),
    {
        let mut r: Vec<FieldChange> = Vec::new();
        if *self.name() != *other.name() {
            r.push(FieldChange::Name);
        }
        if !self.same_args(other) {
            r.push(FieldChange::Signature);
        }
        if !self.same_type(other) {
            r.push(FieldChange::Type);
        }
        if !self.same_value(other) {
            r.push(FieldChange::Value);
        }
        assert(r@ =~= field_changes(self@, other@));
        r
    }

    fn same_args(&self, other: &PalletItem) -> (r: bool)
        ensures
            r == (self@.args == other@.args),
    {
        let empty = Signature { args: Vec::new() };
        assert(empty@ =~= Seq::empty());
        let a = match self {
            PalletItem::Call(c) => &c.signature,
            PalletItem::Event(e) => &e.signature,
            PalletItem::Error(e) => &e.signature,
            _ => &empty,
        };
        let b = match other {
            PalletItem::Call(c) => &c.signature,
            PalletItem::Event(e) => &e.signature,
            PalletItem::Error(e) => &e.signature,
            _ => &empty,
        };
        a.same(b)
    }

    fn same_type(&self, other: &PalletItem) -> (r: bool)
        ensures
            r == (self@.ty == other@.ty),
    {
        let empty = String::new();
        let a = match self {
            PalletItem::Storage(s) => &s.ty,
            _ => &empty,
        };
        let b = match other {
            PalletItem::Storage(s) => &s.ty,
            _ => &empty,
        };
        *a == *b
    }

    fn same_value(&self, other: &PalletItem) -> (r: bool)
        ensures
            r == (self@.value == other@.value),
    {
        let empty: Vec<u8> = Vec::new();
        assert(empty@ =~= Seq::<u8>::empty());
        let a = match self {
            PalletItem::Storage(s) => &s.default_value,
            PalletItem::Constant(c) => &c.value,
            _ => &empty,
        };
        let b = match other {
            PalletItem::Storage(s) => &s.default_value,
            PalletItem::Constant(c) => &c.value,
            _ => &empty,
        };
        same_bytes(a, b)
    }
}

/// A field of an item that can differ between two versions of it.
/// Documentation is never one of them.
#[derive(Clone, Copy, Debug, PartialEq, Eq, Structural)]
pub enum FieldChange {
    Name,
    Signature,
    Type,
    Value,
}

/// The fields in which `after` differs from `before`.
pub open spec fn field_changes(before: ItemView, after: ItemView) -> Seq<FieldChange> {
    (if before.name != after.name { seq![FieldChange::Name] } else { Seq::empty() })
    + (if before.args != after.args { seq![FieldChange::Signature] } else { Seq::empty() })
    + (if before.ty != after.ty { seq![FieldChange::Type] } else { Seq::empty() })
    + (if before.value != after.value { seq![FieldChange::Value] } else { Seq::empty() })
}

/// The decimal digit `d` (below ten) as text.
pub open spec fn digit_text(d: nat) -> Seq<char> {
    if d == 0 {
        "0"@
    } else if d == 1 {
        "1"@
    } else if d == 2 {
        "2"@
    } else if d == 3 {
        "3"@
    } else if d == 4 {
        "4"@
    } else if d == 5 {
        "5"@
    } else if d == 6 {
        "6"@
    } else if d == 7 {
        "7"@
    } else if d == 8 {
        "8"@
    } else {
        "9"@
    }
}

/// `n` written in decimal.
pub open spec fn decimal(n: nat) -> Seq<char>
    decreases n,
{
    if n < 10 {
        digit_text(n)
    } else {
        decimal(n / 10) + digit_text(n % 10)
    }
}

/// One argument as text: `name: type`.
pub open spec fn arg_text(a: (Seq<char>, Seq<char>)) -> Seq<char> {
    a.0 + ": "@ + a.1
}

/// The arguments as text, separated by `, `.
pub open spec fn args_text(args: Seq<(Seq<char>, Seq<char>)>) -> Seq<char>
    decreases args.len(),
{
    if args.len() == 0 {
        Seq::empty()
    } else if args.len() == 1 {
        arg_text(args[0])
    } else {
        args_text(args.drop_last()) + ", "@ + arg_text(args.last())
    }
}

/// An index right-aligned in two columns.
pub open spec fn index_text(i: nat) -> Seq<char> {
    if i < 10 {
        " "@ + decimal(i)
    } else {
        decimal(i)
    }
}

/// A call, an event or an error without its label:
/// `[ 3] name ( arg: Type, ... )`, the index right-aligned in two columns.
pub open spec fn indexed_item_text(index: u32, name: Seq<char>, args: Seq<(Seq<char>, Seq<char>)>) -> Seq<
    char,
> {
    "["@ + index_text(index as nat) + "] "@ + name + " ( "@ + args_text(args) + " )"@
}

/// An item as one line of text: its kind, padded to nine columns, then
/// `: ` and the item (`Storage  : name ( type )`, `Constant : name`).
pub open spec fn item_text(v: ItemView) -> Seq<char> {
    match v.key {
        KeyView::Call(i) => "Call     "@ + ": "@ + indexed_item_text(i, v.name, v.args),
        KeyView::Event(i) => "Event    "@ + ": "@ + indexed_item_text(i, v.name, v.args),
        KeyView::Error(i) => "Error    "@ + ": "@ + indexed_item_text(i, v.name, v.args),
        KeyView::Storage(_) => "Storage  "@ + ": "@ + v.name + " ( "@ + v.ty + " )"@,
        KeyView::Constant(_) => "Constant "@ + ": "@ + v.name,
    }
}

fn digit_str(d: u32) -> (r: &'static str)
    requires
        d < 10,
    ensures
        r@ == digit_text(d as nat),
{
    if d == 0 {
        "0"
    } else if d == 1 {
        "1"
    } else if d == 2 {
        "2"
    } else if d == 3 {
        "3"
    } else if d == 4 {
        "4"
    } else if d == 5 {
        "5"
    } else if d == 6 {
        "6"
    } else if d == 7 {
        "7"
    } else if d == 8 {
        "8"
    } else {
        "9"
    }
}

/// `n` written in decimal.
pub fn decimal_text(n: u32) -> (r: String)
    ensures
        r@ == decimal(n as nat),
    decreases n,
{
    if n < 10 {
        String::from_str(digit_str(n))
    } else {
        let mut s = decimal_text(n / 10);
        s.append(digit_str(n % 10));
        s
    }
}

impl Signature {
    /// The arguments as text: `name: Type, ...`.
    pub fn text(&self) -> (r: String)
        ensures
            r@ == args_text(self@),
    {
        let mut s = String::new();
        let mut i: usize = 0;
        while i < self.args.len()
            invariant
                i <= self.args.len(),
                s@ == args_text(self@.subrange(0, i as int)),
            decreases self.args.len() - i,
        {
            let ghost sub = self@.subrange(0, i as int + 1);
            assert(sub.drop_last() =~= self@.subrange(0, i as int));
            assert(sub.last() == self.args@[i as int]@);
            if i > 0 {
                s.append(", ");
            } else {
                assert(self@.subrange(0, 0) =~= Seq::<(Seq<char>, Seq<char>)>::empty());
                assert(s@ =~= Seq::<char>::empty());
            }
            s.append(self.args[i].name.as_str());
            s.append(": ");
            s.append(self.args[i].ty.as_str());
            i = i + 1;
        }
        assert(self@.subrange(0, i as int) =~= self@);
        s
    }
}

fn indexed_text(index: u32, name: &String, sig: &Signature) -> (r: String)
    ensures
        r@ == indexed_item_text(index, name@, sig@),
{
    let mut s = String::from_str("[");
    if index < 10 {
        s.append(" ");
    }
    let d = decimal_text(index);
    s.append(d.as_str());
    s.append("] ");
    s.append(name.as_str());
    s.append(" ( ");
    let a = sig.text();
    s.append(a.as_str());
    s.append(" )");
    s
}

fn labelled(label: &str, body: String) -> (r: String)
    ensures
        r@ == label@ + ": "@ + body@,
{
    let mut s = String::from_str(label);
    s.append(": ");
    s.append(body.as_str());
    s
}

impl PalletItem {
    /// The item as one line of text.
    pub fn text(&self) -> (r: String)
        ensures
            r@ == item_text(self@),
    {
        match self {
            PalletItem::Call(c) => labelled("Call     ", indexed_text(c.index, &c.name, &c.signature)),
            PalletItem::Event(e) => labelled("Event    ", indexed_text(e.index, &e.name, &e.signature)),
            PalletItem::Error(e) => labelled("Error    ", indexed_text(e.index, &e.name, &e.signature)),
            PalletItem::Storage(st) => {
                let mut s = String::from_str("Storage  ");
                s.append(": ");
                s.append(st.name.as_str());
                s.append(" ( ");
                s.append(st.ty.as_str());
                s.append(" )");
                assert(s@ =~= item_text(self@));
                s
            },
            PalletItem::Constant(c) => {
                let mut s = String::from_str("Constant ");
                s.append(": ");
                s.append(c.name.as_str());
                assert(s@ =~= item_text(self@));
                s
            },
        }
    }
}

impl Event {
    /// The event as one line of text: `[ 3] name ( arg: Type, ... )`.
    pub fn text(&self) -> (r: String)
        ensures
            r@ == indexed_item_text(self.index, self.name@, self.signature@),
    {
        indexed_text(self.index, &self.name, &self.signature)
    }
}

} // verus!

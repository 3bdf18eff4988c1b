use vstd::prelude::*;
use vstd::std_specs::convert::FromSpecImpl;

verus! {

#[verifier::external_type_specification]
#[verifier::external_body]
pub struct ExJsonValue(serde_json::Value);

/// `Clone::clone` of `serde_json::Value`, which serde_json derives (the map
/// variant clones its inner `BTreeMap`): the copy equals the original.
pub assume_specification[ <serde_json::Value as Clone>::clone ](v: &serde_json::Value) -> (r: serde_json::Value)
    ensures
        r == *v,
;

/// The identifier of a token object (`TKToken.ObjectID`).
#[derive(Debug, Clone, PartialEq, Eq, PartialOrd, Ord, Hash)]
pub struct TokenObjectId(pub String);

impl TokenObjectId {
    /// An identifier that spells `id`.
    pub fn new(id: &str) -> (r: Self)
        ensures
            r.0@ == id@,
    {
        TokenObjectId(id.to_owned())
    }
}

impl<'a> From<&'a str> for TokenObjectId {
    /// An identifier that spells `value`, as `TokenObjectId::new` makes it.
    fn from(value: &'a str) -> (r: Self)
        ensures
            r.0@ == value@,
    {
        TokenObjectId(value.to_owned())
    }
}

impl<'a> FromSpecImpl<&'a str> for TokenObjectId {
    /// No spec function names the owned copy of a string slice, so the
    /// identifier is stated by its view in the `ensures` of `from` instead.
    open spec fn obeys_from_spec() -> bool {
        false
    }

    open spec fn from_spec(v: &'a str) -> Self {
        arbitrary()
    }
}

impl From<String> for TokenObjectId {
    fn from(value: String) -> (r: Self) {
        TokenObjectId(value)
    }
}

impl FromSpecImpl<String> for TokenObjectId {
    open spec fn obeys_from_spec() -> bool {
        true
    }

    open spec fn from_spec(v: String) -> Self {
        TokenObjectId(v)
    }
}

/// The `TKTokenOperation` values.
#[derive(Debug, Clone, Copy, PartialEq, Eq, PartialOrd, Ord, Hash, Structural)]
pub enum TokenOperation {
    NoOperation,
    ReadData,
    SignData,
    DecryptData,
    PerformKeyExchange,
}

impl TokenOperation {
    /// The raw `TKTokenOperation` value, 0 to 4.
    pub open spec fn spec_raw(self) -> i32 {
        match self {
            TokenOperation::NoOperation => 0,
            TokenOperation::ReadData => 1,
            TokenOperation::SignData => 2,
            TokenOperation::DecryptData => 3,
            TokenOperation::PerformKeyExchange => 4,
        }
    }

    /// The operation for a raw value; values outside 1 to 4 are `NoOperation`.
    pub open spec fn spec_from_raw(raw: i32) -> Self {
        if raw == 1 {
            TokenOperation::ReadData
        } else if raw == 2 {
            TokenOperation::SignData
        } else if raw == 3 {
            TokenOperation::DecryptData
        } else if raw == 4 {
            TokenOperation::PerformKeyExchange
        } else {
            TokenOperation::NoOperation
        }
    }

    /// Returns the raw `TKTokenOperation` value.
    pub fn raw(self) -> (r: i32)
        ensures
            r == self.spec_raw(),
    {
        match self {
            TokenOperation::NoOperation => 0,
            TokenOperation::ReadData => 1,
            TokenOperation::SignData => 2,
            TokenOperation::DecryptData => 3,
            TokenOperation::PerformKeyExchange => 4,
        }
    }

    /// Maps a raw `TKTokenOperation` value to its operation; any value outside
    /// 1 to 4 is `NoOperation`.
    pub fn from_raw(raw: i32) -> (r: Self)
        ensures
            r == Self::spec_from_raw(raw),
    {
        match raw {
            1 => TokenOperation::ReadData,
            2 => TokenOperation::SignData,
            3 => TokenOperation::DecryptData,
            4 => TokenOperation::PerformKeyExchange,
            _ => TokenOperation::NoOperation,
        }
    }
}

/// Law: every operation survives the trip through its raw value, and the raw
/// values of different operations differ.
pub proof fn law_operation_raw_round_trip(op: TokenOperation, other: TokenOperation)
    ensures
        TokenOperation::spec_from_raw(op.spec_raw()) == op,
        op != other ==> op.spec_raw() != other.spec_raw(),
{
}

/// The constraints of an item after `op` is given `value`: in a list kept in
/// the order of the operations' raw values, the entry of `op` is replaced,
/// or a new one goes in before the first entry of a later operation.
pub open spec fn insert_constraint(
    s: Seq<(TokenOperation, serde_json::Value)>,
    op: TokenOperation,
    value: serde_json::Value,
) -> Seq<(TokenOperation, serde_json::Value)>
    decreases s.len(),
{
    if s.len() == 0 {
        seq![(op, value)]
    } else if s[0].0 == op {
        seq![(op, value)] + s.drop_first()
    } else if op.spec_raw() < s[0].0.spec_raw() {
        seq![(op, value)] + s
    } else {
        seq![s[0]] + insert_constraint(s.drop_first(), op, value)
    }
}

/// The constraint that `s` holds for `op`: the value of its first entry.
pub open spec fn constraint_of(s: Seq<(TokenOperation, serde_json::Value)>, op: TokenOperation) -> Option<
    serde_json::Value,
>
    decreases s.len(),
{
    if s.len() == 0 {
        None
    } else if s[0].0 == op {
        Some(s[0].1)
    } else {
        constraint_of(s.drop_first(), op)
    }
}

/// Whether the entries are in strictly increasing order of the operations'
/// raw values, so that no operation occurs twice.
pub open spec fn constraints_sorted(s: Seq<(TokenOperation, serde_json::Value)>) -> bool {
    forall|i: int, j: int| 0 <= i < j < s.len() ==> s[i].0.spec_raw() < s[j].0.spec_raw()
}

/// The constraints of a keychain item, keyed by operation: at most one per
/// operation, kept in the order of the operations' raw values.
#[derive(Debug, PartialEq, Eq)]
pub struct TokenConstraints {
    entries: Vec<(TokenOperation, serde_json::Value)>,
}

impl View for TokenConstraints {
    type V = Seq<(TokenOperation, serde_json::Value)>;

    closed spec fn view(&self) -> Seq<(TokenOperation, serde_json::Value)> {
        self.entries@
    }
}

impl Clone for TokenConstraints {
    /// A copy with the same constraints.
    fn clone(&self) -> (r: Self)
        ensures
            r@ == self@,
    {
        proof {
            use_type_invariant(self);
        }
        let mut entries: Vec<(TokenOperation, serde_json::Value)> = Vec::new();
        let mut i: usize = 0;
        while i < self.entries.len()
            invariant
                i <= self.entries@.len(),
                entries@.len() == i,
                constraints_sorted(self.entries@),
                forall|j: int| 0 <= j < i ==> #[trigger] entries@[j] == self.entries@[j],
            decreases self.entries.len() - i,
        {
            let operation = self.entries[i].0;
            let value = self.entries[i].1.clone();
            entries.push((operation, value));
            i = i + 1;
        }
        assert(entries@ =~= self.entries@);
        TokenConstraints { entries }
    }
}

impl TokenConstraints {
    #[verifier::type_invariant]
    spec fn entries_sorted(self) -> bool {
        constraints_sorted(self.entries@)
    }

    /// No constraint.
    pub fn new() -> (r: Self)
        ensures
            r@ == Seq::<(TokenOperation, serde_json::Value)>::empty(),
    {
        TokenConstraints { entries: Vec::new() }
    }

    /// The entries, one per operation, in the order of the operations.
    pub fn entries(&self) -> (r: &[(TokenOperation, serde_json::Value)])
        ensures
            r@ == self@,
            constraints_sorted(self@),
    {
        proof {
            use_type_invariant(self);
        }
        self.entries.as_slice()
    }

    /// The number of operations that have a constraint.
    pub fn len(&self) -> (r: usize)
        ensures
            r == self@.len(),
    {
        self.entries.len()
    }

    /// The constraint of `operation`, if it has one.
    pub fn get(&self, operation: TokenOperation) -> (r: Option<&serde_json::Value>)
        ensures
            match r {
                Some(v) => constraint_of(self@, operation) == Some(*v),
                None => constraint_of(self@, operation) is None,
            },
    {
        let mut i: usize = 0;
        assert(self.entries@.skip(0) =~= self.entries@);
        while i < self.entries.len()
            invariant
                i <= self.entries@.len(),
                constraint_of(self.entries@, operation) == constraint_of(
                    self.entries@.skip(i as int),
                    operation,
                ),
            decreases self.entries.len() - i,
        {
            let ghost s = self.entries@.skip(i as int);
            assert(s.drop_first() =~= self.entries@.skip(i + 1));
            if self.entries[i].0 == operation {
                return Some(&self.entries[i].1);
            }
            i = i + 1;
        }
        None
    }

    /// The constraints with `operation` given `value`, replacing any earlier
    /// constraint of that operation.
    pub fn with(self, operation: TokenOperation, value: serde_json::Value) -> (r: Self)
        ensures
            r@ == insert_constraint(self@, operation, value),
    {
        proof {
            use_type_invariant(&self);
        }
        let mut constraints = self.entries;
        let ghost s = constraints@;
        let mut i: usize = 0;
        while i < constraints.len()
            invariant
                i <= constraints@.len(),
                constraints@ == s,
                forall|j: int|
                    0 <= j < i ==> s[j].0 != operation && s[j].0.spec_raw() <= operation.spec_raw(),
            ensures
                i <= s.len(),
                constraints@ == s,
                forall|j: int|
                    0 <= j < i ==> s[j].0 != operation && s[j].0.spec_raw() <= operation.spec_raw(),
                i < s.len() ==> s[i as int].0 == operation || operation.spec_raw() < s[i as int].0.spec_raw(),
            decreases constraints.len() - i,
        {
            let current = constraints[i].0;
            if current == operation || operation.raw() < current.raw() {
                break ;
            }
            i = i + 1;
        }
        proof {
            lemma_insert_constraint_split(s, operation, value, i as int);
        }
        if i < constraints.len() && constraints[i].0 == operation {
            constraints.remove(i);
            constraints.insert(i, (operation, value));
            proof {
                let x = (operation, value);
                assert(s.skip(i as int)[0].0 == operation);
                assert(s.skip(i as int).drop_first() =~= s.skip(i + 1));
                assert(insert_constraint(s.skip(i as int), operation, value) == seq![x] + s.skip(i + 1));
                assert(constraints@ == s.remove(i as int).insert(i as int, x));
                assert(constraints@ =~= s.take(i as int) + (seq![x] + s.skip(i + 1)));
            }
        } else {
            constraints.insert(i, (operation, value));
            proof {
                if i < s.len() {
                    assert(s.skip(i as int)[0] == s[i as int]);
                }
                assert(constraints@ =~= s.take(i as int) + insert_constraint(s.skip(i as int), operation, value));
            }
        }
        proof {
            law_constraint_read_after_write(s, operation, value, operation);
        }
        TokenConstraints { entries: constraints }
    }
}

/// The metadata of a `TKTokenKeychainItem`: its object identifier, label,
/// and the constraint of each operation.
#[derive(Debug, Clone, PartialEq, Eq)]
pub struct TokenKeychainItem {
    pub object_id: TokenObjectId,
    pub label: Option<String>,
    pub constraints: TokenConstraints,
}

proof fn lemma_insert_constraint_split(
    s: Seq<(TokenOperation, serde_json::Value)>,
    op: TokenOperation,
    value: serde_json::Value,
    i: int,
)
    requires
        0 <= i <= s.len(),
        forall|j: int| 0 <= j < i ==> s[j].0 != op && s[j].0.spec_raw() <= op.spec_raw(),
    ensures
        insert_constraint(s, op, value) == s.take(i) + insert_constraint(s.skip(i), op, value),
    decreases i,
{
    if i > 0 {
        lemma_insert_constraint_split(s.drop_first(), op, value, i - 1);
        assert(s.drop_first().take(i - 1) =~= s.take(i).drop_first());
        assert(s.drop_first().skip(i - 1) =~= s.skip(i));
        assert(seq![s[0]] + s.take(i).drop_first() =~= s.take(i));
        assert(seq![s[0]] + (s.take(i).drop_first() + insert_constraint(s.skip(i), op, value))
            =~= s.take(i) + insert_constraint(s.skip(i), op, value));
    } else {
        assert(s.take(0) + insert_constraint(s, op, value) =~= insert_constraint(s, op, value));
        assert(s.skip(0) =~= s);
    }
}

/// Law: after `op` is given `value`, the constraints give back `value` for
/// `op` and what they gave before for every other operation, and entries in
/// the order of their operations stay so.
pub proof fn law_constraint_read_after_write(
    s: Seq<(TokenOperation, serde_json::Value)>,
    op: TokenOperation,
    value: serde_json::Value,
    other: TokenOperation,
)
    ensures
        constraint_of(insert_constraint(s, op, value), op) == Some(value),
        other != op ==> constraint_of(insert_constraint(s, op, value), other) == constraint_of(
            s,
            other,
        ),
        constraints_sorted(s) ==> constraints_sorted(insert_constraint(s, op, value)),
    decreases s.len(),
{
    if s.len() == 0 {
        assert(insert_constraint(s, op, value).drop_first() =~= s);
    } else {
        law_constraint_read_after_write(s.drop_first(), op, value, other);
        let t = insert_constraint(s, op, value);
        if s[0].0 == op {
            assert(t.drop_first() =~= s.drop_first());
        } else if op.spec_raw() < s[0].0.spec_raw() {
            assert(t.drop_first() =~= s);
        } else {
            assert(t.drop_first() =~= insert_constraint(s.drop_first(), op, value));
            if constraints_sorted(s) {
                assert(constraints_sorted(s.drop_first()));
                lemma_insert_constraint_members(s.drop_first(), op, value);
            }
        }
    }
}

proof fn lemma_insert_constraint_members(
    s: Seq<(TokenOperation, serde_json::Value)>,
    op: TokenOperation,
    value: serde_json::Value,
)
    ensures
        forall|k: int|
            0 <= k < insert_constraint(s, op, value).len() ==> ((#[trigger] insert_constraint(
                s,
                op,
                value,
            )[k]).0 == op || exists|j: int| 0 <= j < s.len() && s[j].0 == insert_constraint(s, op, value)[k].0),
    decreases s.len(),
{
    let t = insert_constraint(s, op, value);
    if s.len() > 0 {
        lemma_insert_constraint_members(s.drop_first(), op, value);
        let u = insert_constraint(s.drop_first(), op, value);
        assert forall|k: int| 0 <= k < t.len() implies (#[trigger] t[k]).0 == op || exists|j: int|
            0 <= j < s.len() && s[j].0 == t[k].0 by {
            if s[0].0 == op {
                if k > 0 {
                    assert(t[k] == s[k]);
                }
            } else if op.spec_raw() < s[0].0.spec_raw() {
                if k > 0 {
                    assert(t[k] == s[k - 1]);
                }
            } else {
                if k == 0 {
                    assert(s[0].0 == t[k].0);
                } else {
                    assert(t[k] == u[k - 1]);
                    if u[k - 1].0 != op {
                        let j = choose|j: int|
                            0 <= j < s.drop_first().len() && s.drop_first()[j].0 == u[k - 1].0;
                        assert(s[j + 1].0 == t[k].0);
                    }
                }
            }
        }
    }
}

impl TokenKeychainItem {
    /// An item with identifier `object_id`, no label and no constraints.
    pub fn new(object_id: &str) -> (r: Self)
        ensures
            r.object_id.0@ == object_id@,
            r.label is None,
            r.constraints@.len() == 0,
    {
        TokenKeychainItem {
            object_id: TokenObjectId::new(object_id),
            label: None,
            constraints: TokenConstraints::new(),
        }
    }

    /// The item with its label set to `label`.
    pub fn with_label(self, label: &str) -> (r: Self)
        ensures
            r.label matches Some(l) && l@ == label@,
            r.object_id == self.object_id,
            r.constraints == self.constraints,
    {
        TokenKeychainItem { object_id: self.object_id, label: Some(label.to_owned()), constraints: self.constraints }
    }

    /// The item with the constraint of `operation` set to `value`, replacing
    /// any earlier one.
    pub fn with_constraint(self, operation: TokenOperation, value: serde_json::Value) -> (r: Self)
        ensures
            r.constraints@ == insert_constraint(self.constraints@, operation, value),
            r.object_id == self.object_id,
            r.label == self.label,
    {
        TokenKeychainItem {
            object_id: self.object_id,
            label: self.label,
            constraints: self.constraints.with(operation, value),
        }
    }

    /// The constraint of `operation`, if the item has one.
    pub fn constraint(&self, operation: TokenOperation) -> (r: Option<&serde_json::Value>)
        ensures
            match r {
                Some(v) => constraint_of(self.constraints@, operation) == Some(*v),
                None => constraint_of(self.constraints@, operation) is None,
            },
    {
        self.constraints.get(operation)
    }
}

/// A `TKTokenKeychainCertificate`: an item and the certificate's DER bytes.
#[derive(Debug, Clone, PartialEq, Eq)]
pub struct TokenKeychainCertificate {
    pub item: TokenKeychainItem,
    pub data: Vec<u8>,
}

impl TokenKeychainCertificate {
    /// A certificate with identifier `object_id` and bytes `data`, without
    /// label or constraints.
    pub fn new(object_id: &str, data: Vec<u8>) -> (r: Self)
        ensures
            r.item.object_id.0@ == object_id@,
            r.item.label is None,
            r.item.constraints@.len() == 0,
            r.data == data,
    {
        TokenKeychainCertificate { item: TokenKeychainItem::new(object_id), data }
    }

    /// The certificate with its label set to `label`.
    pub fn with_label(self, label: &str) -> (r: Self)
        ensures
            r.item.label matches Some(l) && l@ == label@,
            r.item.object_id == self.item.object_id,
            r.item.constraints == self.item.constraints,
            r.data == self.data,
    {
        TokenKeychainCertificate { item: self.item.with_label(label), data: self.data }
    }
}

/// The capability flags of a `TKTokenKeychainKey`.
#[derive(Debug, Clone, PartialEq, Eq, Structural)]
pub struct TokenKeyCapabilities {
    pub can_decrypt: bool,
    pub can_sign: bool,
    pub can_perform_key_exchange: bool,
    pub suitable_for_login: bool,
}

impl Default for TokenKeyCapabilities {
    /// No capability.
    fn default() -> (r: Self)
        ensures
            !r.can_decrypt && !r.can_sign && !r.can_perform_key_exchange && !r.suitable_for_login,
    {
        TokenKeyCapabilities {
            can_decrypt: false,
            can_sign: false,
            can_perform_key_exchange: false,
            suitable_for_login: false,
        }
    }
}

/// A `TKTokenKeychainKey`.
#[derive(Debug, Clone, PartialEq, Eq)]
pub struct TokenKeychainKey {
    pub item: TokenKeychainItem,
    pub key_type: String,
    pub application_tag: Option<Vec<u8>>,
    pub key_size_in_bits: i64,
    pub public_key_data: Option<Vec<u8>>,
    pub public_key_hash: Option<Vec<u8>>,
    pub capabilities: TokenKeyCapabilities,
}

impl TokenKeychainKey {
    /// A key with identifier `object_id` and type `key_type`, size 0, and no
    /// label, constraints, tag, public key or capability.
    pub fn new(object_id: &str, key_type: &str) -> (r: Self)
        ensures
            r.item.object_id.0@ == object_id@,
            r.item.label is None,
            r.item.constraints@.len() == 0,
            r.key_type@ == key_type@,
            r.application_tag is None,
            r.key_size_in_bits == 0,
            r.public_key_data is None,
            r.public_key_hash is None,
            !r.capabilities.can_decrypt && !r.capabilities.can_sign
                && !r.capabilities.can_perform_key_exchange && !r.capabilities.suitable_for_login,
    {
        TokenKeychainKey {
            item: TokenKeychainItem::new(object_id),
            key_type: key_type.to_owned(),
            application_tag: None,
            key_size_in_bits: 0,
            public_key_data: None,
            public_key_hash: None,
            capabilities: TokenKeyCapabilities::default(),
        }
    }

    /// The key with its label set to `label`.
    pub fn with_label(self, label: &str) -> (r: Self)
        ensures
            r.item.label matches Some(l) && l@ == label@,
            r.item.object_id == self.item.object_id,
            r.item.constraints == self.item.constraints,
            r.key_type == self.key_type,
            r.application_tag == self.application_tag,
            r.key_size_in_bits == self.key_size_in_bits,
            r.public_key_data == self.public_key_data,
            r.public_key_hash == self.public_key_hash,
            r.capabilities == self.capabilities,
    {
        TokenKeychainKey {
            item: self.item.with_label(label),
            key_type: self.key_type,
            application_tag: self.application_tag,
            key_size_in_bits: self.key_size_in_bits,
            public_key_data: self.public_key_data,
            public_key_hash: self.public_key_hash,
            capabilities: self.capabilities,
        }
    }

    /// The key with its size set to `bits`.
    pub fn with_key_size_in_bits(self, bits: i64) -> (r: Self)
        ensures
            r.key_size_in_bits == bits,
            r.item == self.item,
            r.key_type == self.key_type,
            r.application_tag == self.application_tag,
            r.public_key_data == self.public_key_data,
            r.public_key_hash == self.public_key_hash,
            r.capabilities == self.capabilities,
    {
        TokenKeychainKey { key_size_in_bits: bits, ..self }
    }
}

/// An entry of `TKTokenKeychainContents`: an item, a certificate or a key.
#[derive(Debug, Clone, PartialEq, Eq)]
pub enum TokenKeychainEntry {
    Item(TokenKeychainItem),
    Certificate(TokenKeychainCertificate),
    Key(TokenKeychainKey),
}

impl TokenKeychainEntry {
    /// The object identifier of the entry's item.
    pub open spec fn spec_object_id(&self) -> TokenObjectId {
        match self {
            TokenKeychainEntry::Item(item) => item.object_id,
            TokenKeychainEntry::Certificate(certificate) => certificate.item.object_id,
            TokenKeychainEntry::Key(key) => key.item.object_id,
        }
    }

    /// Returns the object identifier of the entry's item.
    pub fn object_id(&self) -> (r: &TokenObjectId)
        ensures
            *r == self.spec_object_id(),
    {
        match self {
            TokenKeychainEntry::Item(item) => &item.object_id,
            TokenKeychainEntry::Certificate(certificate) => &certificate.item.object_id,
            TokenKeychainEntry::Key(key) => &key.item.object_id,
        }
    }
}

impl From<TokenKeychainItem> for TokenKeychainEntry {
    fn from(value: TokenKeychainItem) -> (r: Self) {
        TokenKeychainEntry::Item(value)
    }
}

impl FromSpecImpl<TokenKeychainItem> for TokenKeychainEntry {
    open spec fn obeys_from_spec() -> bool {
        true
    }

    open spec fn from_spec(v: TokenKeychainItem) -> Self {
        TokenKeychainEntry::Item(v)
    }
}

impl From<TokenKeychainCertificate> for TokenKeychainEntry {
    fn from(value: TokenKeychainCertificate) -> (r: Self) {
        TokenKeychainEntry::Certificate(value)
    }
}

impl FromSpecImpl<TokenKeychainCertificate> for TokenKeychainEntry {
    open spec fn obeys_from_spec() -> bool {
        true
    }

    open spec fn from_spec(v: TokenKeychainCertificate) -> Self {
        TokenKeychainEntry::Certificate(v)
    }
}

impl From<TokenKeychainKey> for TokenKeychainEntry {
    fn from(value: TokenKeychainKey) -> (r: Self) {
        TokenKeychainEntry::Key(value)
    }
}

impl FromSpecImpl<TokenKeychainKey> for TokenKeychainEntry {
    open spec fn obeys_from_spec() -> bool {
        true
    }

    open spec fn from_spec(v: TokenKeychainKey) -> Self {
        TokenKeychainEntry::Key(v)
    }
}

} // verus!

//! Between logical schemas, whose fields may be nullable, and the physical
//! schemas proofs work on, where a nullable column `c` is backed by a
//! boolean presence column `c__presence`.
use vstd::prelude::*;
use crate::column_field::ColumnField;
use crate::column_type::ColumnType;
use crate::owned_table_utility::{ident_named, ident_of, ident_text, ident_value, idents_equal};
use crate::text::{push, string_of};
use sqlparser::ast::Ident;

verus! {

broadcast use vstd::std_specs::vec::group_vec_axioms;

/// The suffix of generated presence columns.
pub open spec fn presence_suffix() -> Seq<char> {
    seq!['_', '_', 'p', 'r', 'e', 's', 'e', 'n', 'c', 'e']
}

/// Errors from turning a logical schema into a physical one.
#[derive(Debug, PartialEq, Eq)]
pub enum NullableSchemaError {
    /// A nullable column's generated presence column has the name of
    /// another column.
    PresenceColumnCollision {
        /// The nullable column.
        column_id: Ident,
        /// The presence column it would need.
        presence_column_id: Ident,
    },
}

/// The text of a name: its value, without its quote style.
pub open spec fn name_text(id: Ident) -> Seq<char> {
    ident_value(id)
}

/// The name of the presence column of a column.
pub open spec fn presence_name(id: Ident) -> Ident {
    ident_named(name_text(id) + presence_suffix())
}

/// The name of the value column a presence column's name points to: the
/// text without the suffix, when it ends with it and something comes
/// before.
pub open spec fn value_name(id: Ident) -> Option<Ident> {
    let t = name_text(id);
    let k = presence_suffix().len();
    if t.len() > k && t.subrange(t.len() - k, t.len() as int) == presence_suffix() {
        Some(ident_named(t.subrange(0, t.len() - k)))
    } else {
        None
    }
}

/// The text of a name, read back.
fn name_of(id: &Ident) -> (s: String)
    ensures
        s@ == name_text(*id),
{
    ident_text(id)
}

/// The name of the presence column generated for a nullable column: the
/// column's name followed by `__presence`.
pub fn presence_column_id(column_id: &Ident) -> (r: Ident)
    ensures
        r == presence_name(*column_id),
{
    let mut s = name_of(column_id);
    proof { reveal_strlit("__presence"); }
    push(&mut s, "__presence");
    proof {
        assert(s@ == name_text(*column_id) + presence_suffix());
    }
    ident_of(s.as_str())
}

/// The name of the value column a presence column stands beside: the name
/// without its `__presence` suffix, when it has one and something comes
/// before it.
pub fn value_column_id_from_presence(column_id: &Ident) -> (r: Option<Ident>)
    ensures
        r == value_name(*column_id),
{
    let s = name_of(column_id);
    let n = s.as_str().unicode_len();
    proof { reveal_strlit("__presence"); }
    let suffix = "__presence";
    let k = suffix.unicode_len();
    if n <= k {
        return None;
    }
    let mut i: usize = 0;
    while i < k
        invariant
            n == s@.len(),
            s@ == name_text(*column_id),
            k == presence_suffix().len(),
            suffix@ == presence_suffix(),
            k < n,
            i <= k,
            forall|j: int| 0 <= j < i ==> s@[n - k + j] == #[trigger] presence_suffix()[j],
        decreases k - i,
    {
        if s.as_str().get_char(n - k + i) != suffix.get_char(i) {
            proof {
                assert(s@.subrange(n - k, n as int)[i as int] != presence_suffix()[i as int]);
            }
            return None;
        }
        i = i + 1;
    }
    proof {
        assert(s@.subrange(n - k, n as int) =~= presence_suffix());
    }
    let head = s.as_str().substring_char(0, n - k);
    Some(ident_of(head))
}

/// Whether a field is the generated presence column of another field: a
/// boolean field named after a field whose presence column it is.
pub open spec fn is_generated_presence(field: ColumnField, fields: Seq<ColumnField>) -> bool {
    &&& field.spec_data_type() == ColumnType::Boolean
    &&& value_name(field.spec_name()) matches Some(v)
    &&& exists|j: int| 0 <= j < fields.len() && (#[trigger] fields[j]).spec_name() == v
            && presence_name(fields[j].spec_name()) == field.spec_name()
}

/// Whether `field` is the generated presence column of a field of `fields`.
pub fn is_generated_presence_field(field: &ColumnField, fields: &[ColumnField]) -> (b: bool)
    ensures
        b == is_generated_presence(*field, fields@),
{
    if field.data_type() != ColumnType::Boolean {
        return false;
    }
    let name = field.name();
    let value = match value_column_id_from_presence(&name) {
        Some(v) => v,
        None => return false,
    };
    let mut i: usize = 0;
    while i < fields.len()
        invariant
            i <= fields@.len(),
            field.spec_data_type() == ColumnType::Boolean,
            name == field.spec_name(),
            value_name(name) == Some(value),
            forall|j: int| 0 <= j < i ==> !((#[trigger] fields@[j]).spec_name() == value
                && presence_name(fields@[j].spec_name()) == name),
        decreases fields@.len() - i,
    {
        let candidate = fields[i].name();
        if idents_equal(&candidate, &value) {
            let p = presence_column_id(&candidate);
            if idents_equal(&p, &name) {
                proof {
                    assert(fields@[i as int].spec_name() == value);
                    assert(presence_name(fields@[i as int].spec_name()) == field.spec_name());
                }
                return true;
            }
            proof {
            }
        }
        i = i + 1;
    }
    false
}

/// Whether a boolean presence column for `field` is among `fields`.
pub open spec fn has_presence(field: ColumnField, fields: Seq<ColumnField>) -> bool {
    exists|j: int| 0 <= j < fields.len() && (#[trigger] fields[j]).spec_name() == presence_name(field.spec_name())
        && fields[j].spec_data_type() == ColumnType::Boolean
}

/// The logical field a physical field stands for, if any.
pub open spec fn logical_field(field: ColumnField, fields: Seq<ColumnField>) -> Seq<ColumnField> {
    if is_generated_presence(field, fields) {
        Seq::empty()
    } else if has_presence(field, fields) {
        seq![ColumnField::spec_field(field.spec_name(), field.spec_data_type(), true)]
    } else {
        seq![field]
    }
}

/// The logical fields of the first `n` physical fields.
pub open spec fn logical_fields(fields: Seq<ColumnField>, n: nat) -> Seq<ColumnField>
    decreases n,
{
    if n == 0 {
        Seq::empty()
    } else {
        logical_fields(fields, (n - 1) as nat) + logical_field(fields[n - 1], fields)
    }
}

/// The logical schema of a physical one: generated presence columns are
/// dropped, and a field with a boolean presence column becomes nullable.
pub fn logical_column_fields_from_physical_schema(physical_fields: &[ColumnField]) -> (r: Vec<ColumnField>)
    ensures
        r@ == logical_fields(physical_fields@, physical_fields@.len()),
{
    let n = physical_fields.len();
    let mut out: Vec<ColumnField> = Vec::new();
    let mut i: usize = 0;
    while i < n
        invariant
            n == physical_fields@.len(),
            i <= n,
            out@ == logical_fields(physical_fields@, i as nat),
        decreases n - i,
    {
        let field = &physical_fields[i];
        proof {
        }
        if !is_generated_presence_field(field, physical_fields) {
            let name = field.name();
            let presence_id = presence_column_id(&name);
            let mut found = false;
            let mut j: usize = 0;
            while j < n
                invariant
                    n == physical_fields@.len(),
                    j <= n,
                    name == field.spec_name(),
                    presence_id == presence_name(name),
                    found == exists|t: int| 0 <= t < j && (#[trigger] physical_fields@[t]).spec_name() == presence_id
                        && physical_fields@[t].spec_data_type() == ColumnType::Boolean,
                decreases n - j,
            {
                let candidate = &physical_fields[j];
                let cname = candidate.name();
                if idents_equal(&cname, &presence_id) && candidate.data_type() == ColumnType::Boolean {
                    found = true;
                }
                j = j + 1;
            }
            if found {
                out.push(ColumnField::new_nullable(name, field.data_type()));
            } else {
                out.push(field.duplicate());
            }
        }
        proof {
            assert(logical_fields(physical_fields@, (i + 1) as nat)
                == logical_fields(physical_fields@, i as nat) + logical_field(physical_fields@[i as int], physical_fields@));
        }
        i = i + 1;
    }
    out
}

/// The physical fields of the first `n` logical fields: a nullable field
/// becomes its value field and a boolean presence field; `Err` names the
/// first nullable field whose presence field's name is taken.
pub open spec fn physical_fields(fields: Seq<ColumnField>, n: nat) -> Result<Seq<ColumnField>, (Ident, Ident)>
    decreases n,
{
    if n == 0 {
        Ok(Seq::empty())
    } else {
        match physical_fields(fields, (n - 1) as nat) {
            Err(e) => Err(e),
            Ok(prev) => {
                let f = fields[n - 1];
                if f.spec_is_nullable() {
                    let p = presence_name(f.spec_name());
                    if exists|j: int| 0 <= j < fields.len() && (#[trigger] fields[j]).spec_name() == p {
                        Err((f.spec_name(), p))
                    } else {
                        Ok(prev + seq![ColumnField::spec_new(f.spec_name(), f.spec_data_type()),
                            ColumnField::spec_new(p, ColumnType::Boolean)])
                    }
                } else {
                    Ok(prev.push(f))
                }
            },
        }
    }
}

/// The physical schema of a logical one: each nullable field becomes its
/// value field followed by a boolean presence field; refused when a
/// presence field's name is the name of a logical field.
pub fn physical_column_fields_from_logical_schema(logical_fields: &[ColumnField])
    -> (res: Result<Vec<ColumnField>, NullableSchemaError>)
    ensures
        match physical_fields(logical_fields@, logical_fields@.len()) {
            Ok(v) => res matches Ok(r) && r@ == v,
            Err((c, p)) => res == Err::<Vec<ColumnField>, NullableSchemaError>(
                NullableSchemaError::PresenceColumnCollision { column_id: c, presence_column_id: p }),
        },
{
    let n = logical_fields.len();
    let mut out: Vec<ColumnField> = Vec::new();
    let mut i: usize = 0;
    while i < n
        invariant
            n == logical_fields@.len(),
            i <= n,
            physical_fields(logical_fields@, i as nat) == Ok::<Seq<ColumnField>, (Ident, Ident)>(out@),
        decreases n - i,
    {
        let field = &logical_fields[i];
        proof {
        }
        if field.is_nullable() {
            let name = field.name();
            let presence_id = presence_column_id(&name);
            let mut j: usize = 0;
            while j < n
                invariant
                    n == logical_fields@.len(),
                    i < n,
                    j <= n,
                    *field == logical_fields@[i as int],
                    field.spec_is_nullable(),
                    name == field.spec_name(),
                    presence_id == presence_name(name),
                    physical_fields(logical_fields@, i as nat) == Ok::<Seq<ColumnField>, (Ident, Ident)>(out@),
                    forall|t: int| 0 <= t < j ==> (#[trigger] logical_fields@[t]).spec_name() != presence_id,
                decreases n - j,
            {
                let cname = logical_fields[j].name();
                if idents_equal(&cname, &presence_id) {
                    proof {
                        assert(logical_fields@[j as int].spec_name() == presence_name(field.spec_name()));
                        assert(physical_fields(logical_fields@, (i + 1) as nat)
                            == Err::<Seq<ColumnField>, (Ident, Ident)>((field.spec_name(), presence_name(field.spec_name()))));
                        lemma_physical_fields_err_stays(logical_fields@, (i + 1) as nat, n as nat);
                    }
                    return Err(NullableSchemaError::PresenceColumnCollision {
                        column_id: name,
                        presence_column_id: presence_id,
                    });
                }
                j = j + 1;
            }
            let ty = field.data_type();
            let value_field = ColumnField::new(name, ty);
            let presence_field = ColumnField::new(presence_id, ColumnType::Boolean);
            proof {
                assert(!exists|t: int| 0 <= t < logical_fields@.len()
                    && (#[trigger] logical_fields@[t]).spec_name() == presence_name(field.spec_name()));
            }
            let ghost before = out@;
            out.push(value_field);
            out.push(presence_field);
            proof {
                assert(out@ =~= before + seq![value_field, presence_field]);
            }
        } else {
            out.push(field.duplicate());
        }
        i = i + 1;
    }
    Ok(out)
}

/// Once a prefix of the fields is refused, every longer prefix is refused
/// for the same field.
proof fn lemma_physical_fields_err_stays(fields: Seq<ColumnField>, m: nat, n: nat)
    requires
        m <= n,
        physical_fields(fields, m) is Err,
    ensures
        physical_fields(fields, n) == physical_fields(fields, m),
    decreases n - m,
{
    if m < n {
        lemma_physical_fields_err_stays(fields, m, (n - 1) as nat);
    }
}

} // verus!

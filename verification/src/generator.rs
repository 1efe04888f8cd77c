//! The build-time generator: derives, from a base grammar name and an ordered
//! list of rules in the `Variant : Type field, Type field, ...` format, the
//! source text of the tagged-union node type, one record type per variant,
//! the visitor contract, and the exhaustive dispatch operation. The rules are
//! the single source of truth, so the node types and the visitor interface
//! cannot drift apart. A malformed rule (no colon, or a field without a
//! space) is fatal: generation aborts rather than recovers.

use vstd::prelude::*;
use vstd::string::StrSliceExecFns;
use vstd::string::StringExecFns;
use crate::chars::{lower_char, push_char, to_lower};
use crate::error::GenerationError;

verus! {

/// A character that trimming removes: a space or a tab.
pub open spec fn is_space(c: char) -> bool {
    c == ' ' || c == '\t'
}

/// The first index in `[i, j)` holding `c`, or `j` when there is none.
pub open spec fn find_in(s: Seq<char>, c: char, i: int, j: int) -> int
    decreases j - i,
{
    if i >= j {
        j
    } else if 0 <= i < s.len() && s[i] == c {
        i
    } else {
        find_in(s, c, i + 1, j)
    }
}

pub proof fn lemma_find_in(s: Seq<char>, c: char, i: int, j: int)
    requires
        0 <= i <= j <= s.len(),
    ensures
        i <= find_in(s, c, i, j) <= j,
        find_in(s, c, i, j) < j ==> s[find_in(s, c, i, j)] == c,
        forall|m: int| i <= m < find_in(s, c, i, j) ==> s[m] != c,
    decreases j - i,
{
    if i < j && s[i] != c {
        lemma_find_in(s, c, i + 1, j);
    }
}

/// The first index in `[i, j)` holding a non-space, or `j` when all of the
/// range is spaces.
pub open spec fn ltrim(s: Seq<char>, i: int, j: int) -> int
    decreases j - i,
{
    if i >= j {
        j
    } else if 0 <= i < s.len() && is_space(s[i]) {
        ltrim(s, i + 1, j)
    } else {
        i
    }
}

pub proof fn lemma_ltrim(s: Seq<char>, i: int, j: int)
    requires
        0 <= i <= j <= s.len(),
    ensures
        i <= ltrim(s, i, j) <= j,
        ltrim(s, i, j) < j ==> !is_space(s[ltrim(s, i, j)]),
        forall|m: int| i <= m < ltrim(s, i, j) ==> is_space(s[m]),
    decreases j - i,
{
    if i < j && is_space(s[i]) {
        lemma_ltrim(s, i + 1, j);
    }
}

/// The index just past the last non-space in `[i, j)`, or `i` when all of the
/// range is spaces.
pub open spec fn rtrim(s: Seq<char>, i: int, j: int) -> int
    decreases j - i,
{
    if j <= i {
        i
    } else if 0 <= j - 1 < s.len() && is_space(s[j - 1]) {
        rtrim(s, i, j - 1)
    } else {
        j
    }
}

pub proof fn lemma_rtrim(s: Seq<char>, i: int, j: int)
    requires
        0 <= i <= j <= s.len(),
    ensures
        i <= rtrim(s, i, j) <= j,
        rtrim(s, i, j) > i ==> !is_space(s[rtrim(s, i, j) - 1]),
        forall|m: int| rtrim(s, i, j) <= m < j ==> is_space(s[m]),
    decreases j - i,
{
    if j > i && is_space(s[j - 1]) {
        lemma_rtrim(s, i, j - 1);
    }
}

/// A parsed field: its declared type, taken verbatim, and its name.
#[verifier::ext_equal]
pub struct FieldV {
    pub ftype: Seq<char>,
    pub fname: Seq<char>,
}

/// A parsed rule: the variant's name and its ordered fields.
#[verifier::ext_equal]
pub struct RuleV {
    pub variant: Seq<char>,
    pub fields: Seq<FieldV>,
}

/// Parse the field text `s[i..j]`: trim it, then split at the first space
/// into the declared type and the name (the remainder, verbatim). A field
/// without a space is malformed.
pub open spec fn parse_field(s: Seq<char>, i: int, j: int) -> Option<FieldV> {
    let a = ltrim(s, i, j);
    let b = rtrim(s, a, j);
    let sp = find_in(s, ' ', a, b);
    if sp >= b {
        None
    } else {
        Some(FieldV { ftype: s.subrange(a, sp), fname: s.subrange(sp + 1, b) })
    }
}

/// Parse the comma-separated field list in `s[i..j]`, in order; `None` as
/// soon as one field is malformed.
pub open spec fn parse_fields(s: Seq<char>, i: int, j: int) -> Option<Seq<FieldV>>
    decreases j - i,
{
    let comma = find_in(s, ',', i, j);
    match parse_field(s, i, comma) {
        None => None,
        Some(f) => if comma >= j {
            Some(seq![f])
        } else {
            let k = if comma < i {
                i + 1
            } else {
                comma + 1
            };
            match parse_fields(s, k, j) {
                None => None,
                Some(rest) => Some(seq![f] + rest),
            }
        },
    }
}

/// Parse one rule: split once at the first colon into the trimmed variant
/// name and the field list. A rule without a colon is malformed.
pub open spec fn parse_rule(s: Seq<char>) -> Option<RuleV> {
    let ci = find_in(s, ':', 0, s.len() as int);
    if ci >= s.len() {
        None
    } else {
        let a = ltrim(s, 0, ci);
        let b = rtrim(s, a, ci);
        match parse_fields(s, ci + 1, s.len() as int) {
            None => None,
            Some(fs) => Some(RuleV { variant: s.subrange(a, b), fields: fs }),
        }
    }
}

/// Parse the rules from index `i` on, in order; `None` as soon as one rule
/// is malformed.
pub open spec fn parse_rules(rules: Seq<Seq<char>>, i: int) -> Option<Seq<RuleV>>
    decreases rules.len() - i,
{
    if !(0 <= i < rules.len()) {
        Some(Seq::empty())
    } else {
        match parse_rule(rules[i]) {
            None => None,
            Some(r) => match parse_rules(rules, i + 1) {
                None => None,
                Some(rest) => Some(seq![r] + rest),
            },
        }
    }
}

/// The views of a sequence of strings, in order.
pub open spec fn strs_view(ts: Seq<String>) -> Seq<Seq<char>> {
    ts.map_values(|t: String| t@)
}

/// `s` with every uppercase ASCII letter lowercased.
pub open spec fn lower(s: Seq<char>) -> Seq<char> {
    s.map_values(|c: char| lower_char(c))
}

/// The generated header: the imports the emitted definitions need.
pub open spec fn header_text() -> Seq<char> {
    "use crate::error::LoxError;\nuse crate::token::Object;\nuse crate::token::Token;\n\n"@
}

/// One arm of the generated union: the variant wrapping its record type.
pub open spec fn enum_arm(base: Seq<char>, r: RuleV) -> Seq<char> {
    "    "@ + r.variant + "("@ + r.variant + base + "),\n"@
}

/// The first `i` union arms, in rule order.
pub open spec fn enum_arms_to(base: Seq<char>, rules: Seq<RuleV>, i: int) -> Seq<char>
    decreases i,
{
    if i <= 0 {
        Seq::empty()
    } else {
        enum_arms_to(base, rules, i - 1) + enum_arm(base, rules[i - 1])
    }
}

/// The generated tagged-union type.
pub open spec fn enum_block(base: Seq<char>, rules: Seq<RuleV>) -> Seq<char> {
    "pub enum "@ + base + " {\n"@ + enum_arms_to(base, rules, rules.len() as int) + "}\n\n"@
}

/// One field of a generated record type, with its declared type verbatim.
pub open spec fn field_line(f: FieldV) -> Seq<char> {
    "    pub "@ + f.fname + ": "@ + f.ftype + ",\n"@
}

/// The first `i` field lines, in field order.
pub open spec fn field_lines_to(fs: Seq<FieldV>, i: int) -> Seq<char>
    decreases i,
{
    if i <= 0 {
        Seq::empty()
    } else {
        field_lines_to(fs, i - 1) + field_line(fs[i - 1])
    }
}

/// The generated record type of one variant.
pub open spec fn struct_block(base: Seq<char>, r: RuleV) -> Seq<char> {
    "pub struct "@ + r.variant + base + " {\n"@ + field_lines_to(
        r.fields,
        r.fields.len() as int,
    ) + "}\n\n"@
}

/// The first `i` record types, in rule order.
pub open spec fn structs_to(base: Seq<char>, rules: Seq<RuleV>, i: int) -> Seq<char>
    decreases i,
{
    if i <= 0 {
        Seq::empty()
    } else {
        structs_to(base, rules, i - 1) + struct_block(base, rules[i - 1])
    }
}

/// One method of the generated visitor contract, named from the variant.
pub open spec fn trait_method(base: Seq<char>, r: RuleV) -> Seq<char> {
    "    fn visit_"@ + lower(r.variant) + "(&self, expr: &"@ + r.variant + base
        + ") -> Result<T, LoxError>;\n"@
}

/// The first `i` visitor methods, in rule order.
pub open spec fn trait_methods_to(base: Seq<char>, rules: Seq<RuleV>, i: int) -> Seq<char>
    decreases i,
{
    if i <= 0 {
        Seq::empty()
    } else {
        trait_methods_to(base, rules, i - 1) + trait_method(base, rules[i - 1])
    }
}

/// The generated visitor contract.
pub open spec fn trait_block(base: Seq<char>, rules: Seq<RuleV>) -> Seq<char> {
    "pub trait "@ + base + "Visitor<T> {\n"@ + trait_methods_to(base, rules, rules.len() as int)
        + "}\n\n"@
}

/// One arm of the generated dispatch: the variant routed to its method.
pub open spec fn match_arm(base: Seq<char>, r: RuleV) -> Seq<char> {
    "            "@ + base + "::"@ + r.variant + "(expr) => visitor.visit_"@ + lower(r.variant)
        + "(expr),\n"@
}

/// The first `i` dispatch arms, in rule order.
pub open spec fn match_arms_to(base: Seq<char>, rules: Seq<RuleV>, i: int) -> Seq<char>
    decreases i,
{
    if i <= 0 {
        Seq::empty()
    } else {
        match_arms_to(base, rules, i - 1) + match_arm(base, rules[i - 1])
    }
}

/// The generated dispatch operation: one exhaustive match over the union.
pub open spec fn impl_block(base: Seq<char>, rules: Seq<RuleV>) -> Seq<char> {
    "impl "@ + base + " {\n    pub fn accept<T, V: "@ + base
        + "Visitor<T>>(&self, visitor: &V) -> Result<T, LoxError> {\n        match self {\n"@
        + match_arms_to(base, rules, rules.len() as int) + "        }\n    }\n}\n"@
}

/// Everything the generator emits for one base grammar, in order: the
/// header, the union, the record types, the visitor contract, and the
/// dispatch operation.
pub open spec fn gen_text(base: Seq<char>, rules: Seq<RuleV>) -> Seq<char> {
    header_text() + enum_block(base, rules) + structs_to(base, rules, rules.len() as int)
        + trait_block(base, rules) + impl_block(base, rules)
}

/// A parsed field, as executable data.
pub struct FieldDef {
    pub ftype: String,
    pub fname: String,
}

impl View for FieldDef {
    type V = FieldV;

    open spec fn view(&self) -> FieldV {
        FieldV { ftype: self.ftype@, fname: self.fname@ }
    }
}

/// The views of a sequence of fields, in order.
pub open spec fn fields_view(fs: Seq<FieldDef>) -> Seq<FieldV> {
    fs.map_values(|f: FieldDef| f@)
}

/// A parsed rule, as executable data.
pub struct RuleDef {
    pub variant: String,
    pub fields: Vec<FieldDef>,
}

impl View for RuleDef {
    type V = RuleV;

    open spec fn view(&self) -> RuleV {
        RuleV { variant: self.variant@, fields: fields_view(self.fields@) }
    }
}

/// The views of a sequence of rules, in order.
pub open spec fn rules_view(rs: Seq<RuleDef>) -> Seq<RuleV> {
    rs.map_values(|r: RuleDef| r@)
}

/// Compute `find_in` over a string.
#[verifier::loop_isolation(false)]
fn find_char_in(s: &str, c: char, i: usize, j: usize) -> (r: usize)
    requires
        i <= j <= s@.len(),
    ensures
        r as int == find_in(s@, c, i as int, j as int),
        i <= r <= j,
    {
        proof {
            lemma_find_in(s@, c, i as int, j as int);
        }
        let mut k: usize = i;
        while k < j
            invariant
                i <= k <= j,
                find_in(s@, c, i as int, j as int) == find_in(s@, c, k as int, j as int),
            decreases j - k,
        {
            if s.get_char(k) == c {
                return k;
            }
            k = k + 1;
        }
        k
    }

/// Compute `ltrim` over a string.
#[verifier::loop_isolation(false)]
fn ltrim_str(s: &str, i: usize, j: usize) -> (r: usize)
    requires
        i <= j <= s@.len(),
    ensures
        r as int == ltrim(s@, i as int, j as int),
        i <= r <= j,
{
    proof {
        lemma_ltrim(s@, i as int, j as int);
    }
    let mut k: usize = i;
    while k < j
        invariant
            i <= k <= j,
            ltrim(s@, i as int, j as int) == ltrim(s@, k as int, j as int),
        decreases j - k,
    {
        let c = s.get_char(k);
        if !(c == ' ' || c == '\t') {
            return k;
        }
        k = k + 1;
    }
    k
}

/// Compute `rtrim` over a string.
#[verifier::loop_isolation(false)]
fn rtrim_str(s: &str, i: usize, j: usize) -> (r: usize)
    requires
        i <= j <= s@.len(),
    ensures
        r as int == rtrim(s@, i as int, j as int),
        i <= r <= j,
{
    proof {
        lemma_rtrim(s@, i as int, j as int);
    }
    let mut k: usize = j;
    while k > i
        invariant
            i <= k <= j,
            rtrim(s@, i as int, j as int) == rtrim(s@, i as int, k as int),
        decreases k - i,
    {
        let c = s.get_char(k - 1);
        if !(c == ' ' || c == '\t') {
            return k;
        }
        k = k - 1;
    }
    k
}

/// Compute `lower` over a string.
#[verifier::loop_isolation(false)]
pub fn lower_str(s: &str) -> (r: String)
    ensures
        r@ == lower(s@),
{
    let n = s.unicode_len();
    let mut r = String::new();
    let mut i: usize = 0;
    while i < n
        invariant
            i <= n,
            n == s@.len(),
            r@ == lower(s@).subrange(0, i as int),
        decreases n - i,
    {
        let c = to_lower(s.get_char(i));
        push_char(&mut r, c);
        proof {
            assert(r@ =~= lower(s@).subrange(0, i + 1 as int));
        }
        i = i + 1;
    }
    proof {
        assert(r@ =~= lower(s@));
    }
    r
}

/// Parse the field text `s[i..j]`, exactly as the model does.
fn parse_field_str(s: &str, i: usize, j: usize) -> (r: Result<FieldDef, GenerationError>)
    requires
        i <= j <= s@.len(),
    ensures
        match parse_field(s@, i as int, j as int) {
            Some(fv) => r is Ok && r->Ok_0@ == fv,
            None => r == Err::<FieldDef, GenerationError>(GenerationError::MalformedRule),
        },
{
    let a = ltrim_str(s, i, j);
    let b = rtrim_str(s, a, j);
    let sp = find_char_in(s, ' ', a, b);
    if sp >= b {
        Err(GenerationError::MalformedRule)
    } else {
        let ftype = String::from_str(s.substring_char(a, sp));
        let fname = String::from_str(s.substring_char(sp + 1, b));
        let f = FieldDef { ftype, fname };
        proof {
            assert(f@ =~= parse_field(s@, i as int, j as int)->Some_0);
        }
        Ok(f)
    }
}

/// Parse one rule line, exactly as the model does.
#[verifier::loop_isolation(false)]
fn parse_rule_str(rule: &str) -> (r: Result<RuleDef, GenerationError>)
    ensures
        match parse_rule(rule@) {
            Some(rv) => r is Ok && r->Ok_0@ == rv,
            None => r == Err::<RuleDef, GenerationError>(GenerationError::MalformedRule),
        },
{
    let n = rule.unicode_len();
    let ci = find_char_in(rule, ':', 0, n);
    if ci >= n {
        return Err(GenerationError::MalformedRule);
    }
    let a = ltrim_str(rule, 0, ci);
    let b = rtrim_str(rule, a, ci);
    let variant = String::from_str(rule.substring_char(a, b));
    let mut fields: Vec<FieldDef> = Vec::new();
    let mut i: usize = ci + 1;
    let mut done = false;
    while !done
        invariant
            ci + 1 <= i <= n,
            n == rule@.len(),
            ci < n,
            !done ==> parse_fields(rule@, ci + 1 as int, n as int) == (match parse_fields(
                rule@,
                i as int,
                n as int,
            ) {
                None => None::<Seq<FieldV>>,
                Some(rest) => Some(fields_view(fields@) + rest),
            }),
            done ==> parse_fields(rule@, ci + 1 as int, n as int) == Some(fields_view(fields@)),
        decreases n - i, (if done {
            0int
        } else {
            1int
        }),
    {
        let ghost i0 = i as int;
        let ghost fields0 = fields@;
        let comma = find_char_in(rule, ',', i, n);
        match parse_field_str(rule, i, comma) {
            Err(e) => {
                return Err(e);
            },
            Ok(f) => {
                fields.push(f);
            },
        }
        proof {
            assert(fields_view(fields@) =~= fields_view(fields0).push(
                parse_field(rule@, i0, comma as int)->Some_0,
            ));
        }
        if comma >= n {
            done = true;
            proof {
                let fv = parse_field(rule@, i0, comma as int)->Some_0;
                assert(parse_fields(rule@, i0, n as int) == Some(seq![fv]));
                assert(fields_view(fields0) + seq![fv] =~= fields_view(fields@));
            }
        } else {
            i = comma + 1;
            proof {
                let fv = parse_field(rule@, i0, comma as int)->Some_0;
                match parse_fields(rule@, comma + 1 as int, n as int) {
                    None => {},
                    Some(rest) => {
                        assert(fields_view(fields0) + (seq![fv] + rest) =~= fields_view(fields@)
                            + rest);
                    },
                }
            }
        }
    }
    let rd = RuleDef { variant, fields };
    proof {
        assert(rd@ =~= parse_rule(rule@)->Some_0);
    }
    Ok(rd)
}

/// Append the generated union type to `out`.
#[verifier::loop_isolation(false)]
fn emit_enum(out: &mut String, base: &str, rules: &Vec<RuleDef>)
    ensures
        final (out)@ == old(out)@ + enum_block(base@, rules_view(rules@)),
{
    out.append("pub enum ");
    out.append(base);
    out.append(" {\n");
    let mut i: usize = 0;
    while i < rules.len()
        invariant
            i <= rules.len(),
            out@ == old(out)@ + "pub enum "@ + base@ + " {\n"@ + enum_arms_to(
                base@,
                rules_view(rules@),
                i as int,
            ),
        decreases rules.len() - i,
    {
        let rd = &rules[i];
        out.append("    ");
        out.append(rd.variant.as_str());
        out.append("(");
        out.append(rd.variant.as_str());
        out.append(base);
        out.append("),\n");
        proof {
            assert(out@ =~= old(out)@ + "pub enum "@ + base@ + " {\n"@ + enum_arms_to(
                base@,
                rules_view(rules@),
                i + 1 as int,
            ));
        }
        i = i + 1;
    }
    out.append("}\n\n");
    proof {
        assert(out@ =~= old(out)@ + enum_block(base@, rules_view(rules@)));
    }
}

/// Append the generated record types, one per variant, to `out`.
#[verifier::loop_isolation(false)]
fn emit_structs(out: &mut String, base: &str, rules: &Vec<RuleDef>)
    ensures
        final (out)@ == old(out)@ + structs_to(
            base@,
            rules_view(rules@),
            rules@.len() as int,
        ),
{
    let mut i: usize = 0;
    while i < rules.len()
        invariant
            i <= rules.len(),
            out@ == old(out)@ + structs_to(base@, rules_view(rules@), i as int),
        decreases rules.len() - i,
    {
        let ghost out0 = out@;
        let rd = &rules[i];
        out.append("pub struct ");
        out.append(rd.variant.as_str());
        out.append(base);
        out.append(" {\n");
        let mut k: usize = 0;
        while k < rd.fields.len()
            invariant
                k <= rd.fields.len(),
                out@ == out0 + "pub struct "@ + rd.variant@ + base@ + " {\n"@ + field_lines_to(
                    fields_view(rd.fields@),
                    k as int,
                ),
            decreases rd.fields.len() - k,
        {
            let fd = &rd.fields[k];
            out.append("    pub ");
            out.append(fd.fname.as_str());
            out.append(": ");
            out.append(fd.ftype.as_str());
            out.append(",\n");
            proof {
                assert(out@ =~= out0 + "pub struct "@ + rd.variant@ + base@ + " {\n"@
                    + field_lines_to(fields_view(rd.fields@), k + 1 as int));
            }
            k = k + 1;
        }
        out.append("}\n\n");
        proof {
            assert(out@ =~= old(out)@ + structs_to(base@, rules_view(rules@), i + 1 as int));
        }
        i = i + 1;
    }
}

/// Append the generated visitor contract to `out`.
#[verifier::loop_isolation(false)]
fn emit_trait(out: &mut String, base: &str, rules: &Vec<RuleDef>)
    ensures
        final (out)@ == old(out)@ + trait_block(base@, rules_view(rules@)),
{
    out.append("pub trait ");
    out.append(base);
    out.append("Visitor<T> {\n");
    let mut i: usize = 0;
    while i < rules.len()
        invariant
            i <= rules.len(),
            out@ == old(out)@ + "pub trait "@ + base@ + "Visitor<T> {\n"@ + trait_methods_to(
                base@,
                rules_view(rules@),
                i as int,
            ),
        decreases rules.len() - i,
    {
        let rd = &rules[i];
        out.append("    fn visit_");
        let low = lower_str(rd.variant.as_str());
        out.append(low.as_str());
        out.append("(&self, expr: &");
        out.append(rd.variant.as_str());
        out.append(base);
        out.append(") -> Result<T, LoxError>;\n");
        proof {
            assert(out@ =~= old(out)@ + "pub trait "@ + base@ + "Visitor<T> {\n"@
                + trait_methods_to(base@, rules_view(rules@), i + 1 as int));
        }
        i = i + 1;
    }
    out.append("}\n\n");
    proof {
        assert(out@ =~= old(out)@ + trait_block(base@, rules_view(rules@)));
    }
}

/// Append the generated dispatch operation to `out`.
#[verifier::loop_isolation(false)]
fn emit_impl(out: &mut String, base: &str, rules: &Vec<RuleDef>)
    ensures
        final (out)@ == old(out)@ + impl_block(base@, rules_view(rules@)),
{
    out.append("impl ");
    out.append(base);
    out.append(" {\n    pub fn accept<T, V: ");
    out.append(base);
    out.append("Visitor<T>>(&self, visitor: &V) -> Result<T, LoxError> {\n        match self {\n");
    let mut i: usize = 0;
    while i < rules.len()
        invariant
            i <= rules.len(),
            out@ == old(out)@ + "impl "@ + base@ + " {\n    pub fn accept<T, V: "@ + base@
                + "Visitor<T>>(&self, visitor: &V) -> Result<T, LoxError> {\n        match self {\n"@
                + match_arms_to(base@, rules_view(rules@), i as int),
        decreases rules.len() - i,
    {
        let rd = &rules[i];
        out.append("            ");
        out.append(base);
        out.append("::");
        out.append(rd.variant.as_str());
        out.append("(expr) => visitor.visit_");
        let low = lower_str(rd.variant.as_str());
        out.append(low.as_str());
        out.append("(expr),\n");
        proof {
            assert(out@ =~= old(out)@ + "impl "@ + base@ + " {\n    pub fn accept<T, V: "@ + base@
                + "Visitor<T>>(&self, visitor: &V) -> Result<T, LoxError> {\n        match self {\n"@
                + match_arms_to(base@, rules_view(rules@), i + 1 as int));
        }
        i = i + 1;
    }
    out.append("        }\n    }\n}\n");
    proof {
        assert(out@ =~= old(out)@ + impl_block(base@, rules_view(rules@)));
    }
}

/// Derive the node types, the visitor contract and the dispatch operation for
/// one base grammar from its rules, as a single piece of source text. The
/// result is exactly the model's text for the parsed rules; a malformed rule
/// aborts generation.
#[verifier::loop_isolation(false)]
pub fn define_ast(base_name: &str, types: &Vec<String>) -> (r: Result<String, GenerationError>)
    ensures
        match parse_rules(strs_view(types@), 0) {
            Some(rs) => r is Ok && r->Ok_0@ == gen_text(base_name@, rs),
            None => r == Err::<String, GenerationError>(GenerationError::MalformedRule),
        },
{
    let mut rules: Vec<RuleDef> = Vec::new();
    let mut i: usize = 0;
    proof {
        assert(strs_view(types@).len() == types@.len());
    }
    while i < types.len()
        invariant
            i <= types.len(),
            parse_rules(strs_view(types@), 0) == (match parse_rules(strs_view(types@), i as int) {
                None => None::<Seq<RuleV>>,
                Some(rest) => Some(rules_view(rules@) + rest),
            }),
        decreases types.len() - i,
    {
        let ghost rules0 = rules@;
        match parse_rule_str(types[i].as_str()) {
            Err(e) => {
                return Err(e);
            },
            Ok(rd) => {
                proof {
                    let rv = parse_rule(strs_view(types@)[i as int])->Some_0;
                    assert(rules_view(rules@.push(rd)) =~= rules_view(rules0).push(rv));
                }
                rules.push(rd);
            },
        }
        proof {
            let rv = parse_rule(strs_view(types@)[i as int])->Some_0;
            match parse_rules(strs_view(types@), i + 1) {
                None => {},
                Some(rest) => {
                    assert(rules_view(rules0) + (seq![rv] + rest) =~= rules_view(rules@) + rest);
                },
            }
        }
        i = i + 1;
    }
    proof {
        assert(rules_view(rules@) + Seq::<RuleV>::empty() =~= rules_view(rules@));
    }
    let mut out = String::from_str(
        "use crate::error::LoxError;\nuse crate::token::Object;\nuse crate::token::Token;\n\n",
    );
    emit_enum(&mut out, base_name, &rules);
    emit_structs(&mut out, base_name, &rules);
    emit_trait(&mut out, base_name, &rules);
    emit_impl(&mut out, base_name, &rules);
    proof {
        assert(out@ =~= gen_text(base_name@, rules_view(rules@)));
    }
    Ok(out)
}

} // verus!

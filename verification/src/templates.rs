//! The debsig policy file and the Debian `control` stanza, rendered from
//! minijinja templates.
//!
//! The control stanza is a list of `Name: value` properties: twelve fields
//! that are always emitted (blank or not), `Vendor` and `Authors` when not
//! blank, and the relationship fields (`Depends`, `Pre-Depends`, …) when
//! they hold at least one non-blank entry, joined with `", "`.
use vstd::prelude::*;

use crate::text::{
    comma_free, is_blank, join, join_strings, lemma_split_append_comma_free,
    lemma_split_comma_free, lemma_trim_comma_free, lemma_trim_idempotent,
    lemma_trim_leading_space, split_commas, trim, trim_chars,
};

verus! {

/// The debsig-verify policy document.
pub const POLICY_FILE_TEMPLATE: &'static str = r#"<?xml version="1.0"?>
<!DOCTYPE Policy SYSTEM "https://www.debian.org/debsig/1.0/policy.dtd">
<Policy xmlns="https://www.debian.org/debsig/1.0/">

  <!-- Here name and description can be anything. -->
  <Origin Name="Verification" id="{{ key_id }}" Description="{{ description }}" />

  <Selection>
    <Required Type="origin" File="{{ key_filename }}" id="{{ key_id }}"/>
  </Selection>

  <Verification MinOptional="0">
    <Required Type="origin" File="{{ key_filename }}" id="{{ key_id }}"/>
  </Verification>

</Policy>
"#;

/// The `control` stanza: one `Name: value` line per property, then the
/// description paragraph.
pub const DEBIAN_CONTROL_FILE_TEMPLATE: &'static str = r#"
{%- autoescape false -%}
{% for property in properties %}{{ property.name }}: {{ property.value }}
{% endfor %}Description:
 {{ description }}
 Built from {{ githash }} by {{ buildurl }}
{% endautoescape -%}
"#;

// ---------------------------------------------------------------------------
// Rendering
// ---------------------------------------------------------------------------

#[verifier::external_type_specification]
#[verifier::external_body]
pub struct ExMinijinjaError(minijinja::Error);

/// Whether minijinja renders the template `source`, registered under
/// `name`, without error, given a context made of the string variables
/// `vars` and the list variables `lists` (each list a sequence of records of
/// string fields).
pub uninterp spec fn renders(
    name: Seq<char>,
    source: Seq<char>,
    vars: Seq<(Seq<char>, Seq<char>)>,
    lists: Seq<(Seq<char>, Seq<Seq<(Seq<char>, Seq<char>)>>)>,
) -> bool;

/// The text minijinja renders from the template `source`, registered under
/// `name`, with the same context.
pub uninterp spec fn rendered(
    name: Seq<char>,
    source: Seq<char>,
    vars: Seq<(Seq<char>, Seq<char>)>,
    lists: Seq<(Seq<char>, Seq<Seq<(Seq<char>, Seq<char>)>>)>,
) -> Seq<char>;

/// Renders the template `source`, registered under `name`, with minijinja
/// (`Environment::new`, `add_template`, `get_template`, `Template::render`).
/// The context maps each name of `vars` to its string and each name of
/// `lists` to a list of maps from field names to strings. Claims: the call
/// succeeds exactly when [`renders`] holds of the arguments, and what comes
/// back on success is [`rendered`] of the arguments; both depend on the
/// arguments alone (the environment's configuration is minijinja's fixed
/// default). Nothing is claimed of the error's content.
#[verifier::external_body]
fn render_template(
    name: &str,
    source: &str,
    vars: &Vec<(String, String)>,
    lists: &Vec<(String, Vec<Vec<(String, String)>>)>,
) -> (r: Result<String, minijinja::Error>)
    ensures
        r is Ok <==> renders(name@, source@, vars.deep_view(), lists.deep_view()),
        r matches Ok(s) ==> s@ == rendered(name@, source@, vars.deep_view(), lists.deep_view()),
{
    let mut env = minijinja::Environment::new();
    env.add_template(name, source)?;
    let texts = vars.iter().map(|(k, v)| (k.as_str(), minijinja::Value::from(v.as_str())));
    let tables = lists.iter().map(|(k, rows)| {
        let rows = rows.iter().map(|row| row.iter().map(|(f, v)| (f.as_str(), v.as_str())));
        (k.as_str(), rows.map(|fields| fields.collect::<minijinja::Value>()).collect())
    });
    env.get_template(name)?.render(texts.chain(tables).collect::<minijinja::Value>())
}

/// The message of a minijinja error: `minijinja::Error`'s `Display` text,
/// through `ToString::to_string`. Nothing is claimed of the text.
#[verifier::external_body]
fn minijinja_error_text(e: &minijinja::Error) -> String {
    e.to_string()
}

/// A template that could not be rendered.
#[derive(Debug)]
pub struct RenderError {
    /// Which document was being rendered.
    pub context: String,
    /// What minijinja reported.
    pub detail: String,
}

impl RenderError {
    /// The error's message: the context, then minijinja's message.
    pub fn message(&self) -> (r: String)
        ensures
            r@ == self.context@ + ": "@ + self.detail@,
    {
        self.context.clone().concat(": ").concat(self.detail.as_str())
    }
}

/// Wraps a minijinja failure with the document being rendered.
fn render_failure(context: &str, e: &minijinja::Error) -> (r: RenderError)
    ensures
        r.context@ == context@,
{
    RenderError { context: String::from_str(context), detail: minijinja_error_text(e) }
}

// ---------------------------------------------------------------------------
// Policy file
// ---------------------------------------------------------------------------

/// The values substituted into the policy template.
pub struct PolicyFileInput<'a> {
    pub key_filename: &'a str,
    pub key_id: &'a str,
    pub description: &'a str,
}

/// The string variables of the policy template.
pub open spec fn policy_vars(input: PolicyFileInput) -> Seq<(Seq<char>, Seq<char>)> {
    seq![
        ("key_filename"@, input.key_filename@),
        ("key_id"@, input.key_id@),
        ("description"@, input.description@),
    ]
}

fn text_var(name: &str, value: &str) -> (r: (String, String))
    ensures
        r.0@ == name@,
        r.1@ == value@,
{
    (String::from_str(name), String::from_str(value))
}

/// Renders the debsig-verify policy for a signing key.
pub fn format_policy_file(input: &PolicyFileInput) -> (r: Result<String, RenderError>)
    ensures
        r is Ok <==> renders("policy"@, POLICY_FILE_TEMPLATE@, policy_vars(*input), Seq::empty()),
        r matches Ok(s) ==> s@ == rendered(
            "policy"@,
            POLICY_FILE_TEMPLATE@,
            policy_vars(*input),
            Seq::empty(),
        ),
        r matches Err(e) ==> e.context@ == "rendering policy template"@,
{
    let mut vars: Vec<(String, String)> = Vec::new();
    vars.push(text_var("key_filename", input.key_filename));
    vars.push(text_var("key_id", input.key_id));
    vars.push(text_var("description", input.description));
    let lists: Vec<(String, Vec<Vec<(String, String)>>)> = Vec::new();
    assert(vars.deep_view() =~= policy_vars(*input));
    assert(lists.deep_view() =~= Seq::empty());
    match render_template("policy", POLICY_FILE_TEMPLATE, &vars, &lists) {
        Ok(s) => Ok(s),
        Err(e) => Err(render_failure("rendering policy template", &e)),
    }
}


// ---------------------------------------------------------------------------
// Control file
// ---------------------------------------------------------------------------

/// The inputs of a `control` stanza. `depends` and the other relationship
/// lists are optional; blank entries in them are dropped.
#[derive(Debug, Clone)]
pub struct DebianControl {
    pub package_name: String,
    pub version: String,
    pub vendor: String,
    pub package_authors: String,
    pub package_maintainer: String,
    pub package_description: String,
    pub package_section: String,
    pub package_priority: String,
    pub package_homepage: String,
    pub package_installed_size: String,
    pub package_source: String,
    pub architecture: String,
    pub suite: String,
    pub codename: String,
    pub depends: Option<Vec<String>>,
    pub suggested_depends: Option<Vec<String>>,
    pub recommended_depends: Option<Vec<String>>,
    pub pre_depends: Option<Vec<String>>,
    pub conflicts: Option<Vec<String>>,
    pub replaces: Option<Vec<String>>,
    pub provides: Option<Vec<String>>,
    pub license: String,
    pub githash: String,
    pub buildurl: String,
}

/// One `Name: value` line of the stanza.
#[derive(Debug)]
pub struct Property {
    pub name: String,
    pub value: String,
}

impl View for Property {
    type V = (Seq<char>, Seq<char>);

    open spec fn view(&self) -> (Seq<char>, Seq<char>) {
        (self.name@, self.value@)
    }
}

/// The (name, value) pairs of a property list.
pub open spec fn property_pairs(props: Seq<Property>) -> Seq<(Seq<char>, Seq<char>)> {
    props.map_values(|p: Property| p@)
}

/// An optional single-valued field: present unless its value is blank.
pub open spec fn scalar_property(name: Seq<char>, value: Seq<char>) -> Seq<(Seq<char>, Seq<char>)> {
    if is_blank(value) {
        Seq::empty()
    } else {
        seq![(name, value)]
    }
}

/// The entries of a relationship list that survive: each trimmed, blank
/// ones dropped, order kept.
pub open spec fn kept_entries(items: Seq<Seq<char>>) -> Seq<Seq<char>>
    decreases items.len(),
{
    if items.len() == 0 {
        Seq::empty()
    } else {
        let rest = kept_entries(items.drop_last());
        let t = trim_chars(items.last());
        if t.len() == 0 {
            rest
        } else {
            rest.push(t)
        }
    }
}

/// The value of a relationship field: its kept entries joined with `", "`.
pub open spec fn joined_entries(items: Seq<Seq<char>>) -> Seq<char> {
    join(kept_entries(items), ", "@)
}

/// A relationship field: present when the list is given and its joined
/// value is not empty.
pub open spec fn list_property(name: Seq<char>, value: Option<Seq<Seq<char>>>) -> Seq<
    (Seq<char>, Seq<char>),
> {
    match value {
        None => Seq::empty(),
        Some(items) => if joined_entries(items).len() == 0 {
            Seq::empty()
        } else {
            seq![(name, joined_entries(items))]
        },
    }
}

/// Appends an optional single-valued field, skipping it when blank.
pub fn push_scalar(props: &mut Vec<Property>, name: &str, value: &str)
    ensures
        property_pairs(final(props)@) == property_pairs(old(props)@) + scalar_property(
            name@,
            value@,
        ),
{
    let t = trim(value);
    if !t.as_str().is_empty() {
        props.push(Property { name: String::from_str(name), value: String::from_str(value) });
        assert(property_pairs(final(props)@) =~= property_pairs(old(props)@) + seq![(name@, value@)]);
    } else {
        assert(property_pairs(final(props)@) =~= property_pairs(old(props)@));
    }
}

/// The kept entries of `items`: trimmed, blanks dropped.
fn keep_entries(items: &Vec<String>) -> (r: Vec<String>)
    ensures
        r.deep_view() == kept_entries(items.deep_view()),
{
    let ghost all = items.deep_view();
    let mut r: Vec<String> = Vec::new();
    let mut i: usize = 0;
    while i < items.len()
        invariant
            i <= items.len(),
            all == items.deep_view(),
            all.len() == items.len(),
            r.deep_view() == kept_entries(all.take(i as int)),
        decreases items.len() - i,
    {
        proof {
            assert(all.take(i + 1).drop_last() =~= all.take(i as int));
        }
        let t = trim(items[i].as_str());
        if !t.as_str().is_empty() {
            let ghost before = r.deep_view();
            r.push(t);
            assert(r.deep_view() =~= before.push(t@));
        }
        i = i + 1;
    }
    assert(all.take(i as int) =~= all);
    r
}

/// Appends a relationship field as a `", "`-separated list, skipping it
/// when absent or when no entry is left after trimming and dropping blanks.
pub fn push_list(props: &mut Vec<Property>, name: &str, value: &Option<Vec<String>>)
    ensures
        property_pairs(final(props)@) == property_pairs(old(props)@) + list_property(
            name@,
            value.deep_view(),
        ),
{
    match value {
        None => {
            assert(property_pairs(final(props)@) =~= property_pairs(old(props)@));
        },
        Some(items) => {
            let kept = keep_entries(items);
            let joined = join_strings(&kept, ", ");
            if !joined.as_str().is_empty() {
                props.push(Property { name: String::from_str(name), value: joined });
                assert(property_pairs(final(props)@) =~= property_pairs(old(props)@) + seq![
                    (name@, joined_entries(items.deep_view())),
                ]);
            } else {
                assert(property_pairs(final(props)@) =~= property_pairs(old(props)@));
            }
        },
    }
}


/// The properties of a `control` stanza, in order: `Package`, `Version`,
/// `Architecture`, `Maintainer`; `Vendor` and `Authors` unless blank;
/// `Section`, `Priority`, `Homepage`, `Installed-Size`; the relationship
/// fields `Depends`, `Pre-Depends`, `Recommends`, `Suggests`, `Conflicts`,
/// `Replaces`, `Provides` when they hold a non-blank entry; then `Source`,
/// `Suite`, `Codename`, `License`.
pub open spec fn control_property_list(c: DebianControl) -> Seq<(Seq<char>, Seq<char>)> {
    seq![
        ("Package"@, c.package_name@),
        ("Version"@, c.version@),
        ("Architecture"@, c.architecture@),
        ("Maintainer"@, c.package_maintainer@),
    ] + scalar_property("Vendor"@, c.vendor@) + scalar_property("Authors"@, c.package_authors@)
        + seq![
        ("Section"@, c.package_section@),
        ("Priority"@, c.package_priority@),
        ("Homepage"@, c.package_homepage@),
        ("Installed-Size"@, c.package_installed_size@),
    ] + list_property("Depends"@, c.depends.deep_view()) + list_property(
        "Pre-Depends"@,
        c.pre_depends.deep_view(),
    ) + list_property("Recommends"@, c.recommended_depends.deep_view()) + list_property(
        "Suggests"@,
        c.suggested_depends.deep_view(),
    ) + list_property("Conflicts"@, c.conflicts.deep_view()) + list_property(
        "Replaces"@,
        c.replaces.deep_view(),
    ) + list_property("Provides"@, c.provides.deep_view()) + seq![
        ("Source"@, c.package_source@),
        ("Suite"@, c.suite@),
        ("Codename"@, c.codename@),
        ("License"@, c.license@),
    ]
}

fn push_fixed(props: &mut Vec<Property>, name: &str, value: &String)
    ensures
        property_pairs(final(props)@) == property_pairs(old(props)@) + seq![(name@, value@)],
{
    props.push(Property { name: String::from_str(name), value: value.clone() });
    assert(property_pairs(final(props)@) =~= property_pairs(old(props)@) + seq![(name@, value@)]);
}

/// The properties of the `control` stanza for `input`.
pub fn control_properties(input: &DebianControl) -> (r: Vec<Property>)
    ensures
        property_pairs(r@) == control_property_list(*input),
{
    let mut props: Vec<Property> = Vec::new();
    assert(property_pairs(props@) =~= Seq::empty());
    push_fixed(&mut props, "Package", &input.package_name);
    push_fixed(&mut props, "Version", &input.version);
    push_fixed(&mut props, "Architecture", &input.architecture);
    push_fixed(&mut props, "Maintainer", &input.package_maintainer);
    push_scalar(&mut props, "Vendor", input.vendor.as_str());
    push_scalar(&mut props, "Authors", input.package_authors.as_str());
    push_fixed(&mut props, "Section", &input.package_section);
    push_fixed(&mut props, "Priority", &input.package_priority);
    push_fixed(&mut props, "Homepage", &input.package_homepage);
    push_fixed(&mut props, "Installed-Size", &input.package_installed_size);
    push_list(&mut props, "Depends", &input.depends);
    push_list(&mut props, "Pre-Depends", &input.pre_depends);
    push_list(&mut props, "Recommends", &input.recommended_depends);
    push_list(&mut props, "Suggests", &input.suggested_depends);
    push_list(&mut props, "Conflicts", &input.conflicts);
    push_list(&mut props, "Replaces", &input.replaces);
    push_list(&mut props, "Provides", &input.provides);
    push_fixed(&mut props, "Source", &input.package_source);
    push_fixed(&mut props, "Suite", &input.suite);
    push_fixed(&mut props, "Codename", &input.codename);
    push_fixed(&mut props, "License", &input.license);
    assert(property_pairs(props@) =~= control_property_list(*input));
    props
}

/// A property as a template record with fields `name` and `value`.
pub open spec fn property_record(p: (Seq<char>, Seq<char>)) -> Seq<(Seq<char>, Seq<char>)> {
    seq![("name"@, p.0), ("value"@, p.1)]
}

/// The string variables of the control template.
pub open spec fn control_vars(c: DebianControl) -> Seq<(Seq<char>, Seq<char>)> {
    seq![
        ("description"@, c.package_description@),
        ("githash"@, c.githash@),
        ("buildurl"@, c.buildurl@),
    ]
}

/// The list variables of the control template: `properties`.
pub open spec fn control_lists(c: DebianControl) -> Seq<
    (Seq<char>, Seq<Seq<(Seq<char>, Seq<char>)>>),
> {
    seq![("properties"@, control_property_list(c).map_values(|p: (Seq<char>, Seq<char>)| property_record(p)))]
}

fn property_rows(props: &Vec<Property>) -> (r: Vec<Vec<(String, String)>>)
    ensures
        r.deep_view() == property_pairs(props@).map_values(
            |p: (Seq<char>, Seq<char>)| property_record(p),
        ),
{
    let mut r: Vec<Vec<(String, String)>> = Vec::new();
    let mut i: usize = 0;
    while i < props.len()
        invariant
            i <= props.len(),
            r.len() == i,
            forall|k: int| 0 <= k < i ==> #[trigger] r[k].deep_view() == property_record(props[k]@),
        decreases props.len() - i,
    {
        let mut row: Vec<(String, String)> = Vec::new();
        row.push((String::from_str("name"), props[i].name.clone()));
        row.push((String::from_str("value"), props[i].value.clone()));
        assert(row.deep_view() =~= property_record(props[i as int]@));
        r.push(row);
        i = i + 1;
    }
    assert(r.deep_view() =~= property_pairs(props@).map_values(
        |p: (Seq<char>, Seq<char>)| property_record(p),
    ));
    r
}

/// Renders the `control` stanza for `input`.
pub fn format_control_file(input: &DebianControl) -> (r: Result<String, RenderError>)
    ensures
        r is Ok <==> renders(
            "control"@,
            DEBIAN_CONTROL_FILE_TEMPLATE@,
            control_vars(*input),
            control_lists(*input),
        ),
        r matches Ok(s) ==> s@ == rendered(
            "control"@,
            DEBIAN_CONTROL_FILE_TEMPLATE@,
            control_vars(*input),
            control_lists(*input),
        ),
        r matches Err(e) ==> e.context@ == "rendering control template"@,
{
    let props = control_properties(input);
    let rows = property_rows(&props);
    let mut vars: Vec<(String, String)> = Vec::new();
    vars.push(text_var("description", input.package_description.as_str()));
    vars.push(text_var("githash", input.githash.as_str()));
    vars.push(text_var("buildurl", input.buildurl.as_str()));
    let mut lists: Vec<(String, Vec<Vec<(String, String)>>)> = Vec::new();
    lists.push((String::from_str("properties"), rows));
    assert(vars.deep_view() =~= control_vars(*input));
    assert(lists.deep_view() =~= control_lists(*input));
    match render_template("control", DEBIAN_CONTROL_FILE_TEMPLATE, &vars, &lists) {
        Ok(s) => Ok(s),
        Err(e) => Err(render_failure("rendering control template", &e)),
    }
}


// ---------------------------------------------------------------------------
// Laws of the control stanza
// ---------------------------------------------------------------------------

/// Every kept entry is non-empty and already trimmed; kept entries of
/// comma-free items are comma-free.
pub proof fn lemma_kept_entries_shape(items: Seq<Seq<char>>)
    ensures
        forall|j: int|
            0 <= j < kept_entries(items).len() ==> (#[trigger] kept_entries(items)[j]).len() > 0
                && trim_chars(kept_entries(items)[j]) == kept_entries(items)[j],
        (forall|i: int| 0 <= i < items.len() ==> comma_free(#[trigger] items[i])) ==> forall|j: int|
            0 <= j < kept_entries(items).len() ==> comma_free(#[trigger] kept_entries(items)[j]),
    decreases items.len(),
{
    if items.len() > 0 {
        let front = items.drop_last();
        lemma_kept_entries_shape(front);
        lemma_trim_idempotent(items.last());
        let rest = kept_entries(front);
        let t = trim_chars(items.last());
        let all = kept_entries(items);
        assert(all == if t.len() == 0 { rest } else { rest.push(t) });
        assert forall|j: int| 0 <= j < all.len() implies (#[trigger] all[j]).len() > 0
            && trim_chars(all[j]) == all[j] by {
            if j < rest.len() {
                assert(all[j] == rest[j]);
            }
        }
        if forall|i: int| 0 <= i < items.len() ==> comma_free(#[trigger] items[i]) {
            assert(comma_free(items[items.len() - 1]));
            lemma_trim_comma_free(items.last());
            assert forall|i: int| 0 <= i < front.len() implies comma_free(#[trigger] front[i]) by {
                assert(front[i] == items[i]);
            }
            assert forall|j: int| 0 <= j < all.len() implies comma_free(#[trigger] all[j]) by {
                if j < rest.len() {
                    assert(all[j] == rest[j]);
                }
            }
        }
    }
}

proof fn lemma_join_nonempty(ks: Seq<Seq<char>>, sep: Seq<char>)
    requires
        ks.len() > 0,
        ks.last().len() > 0,
    ensures
        join(ks, sep).len() > 0,
{
}

proof fn lemma_kept_round_trip(ks: Seq<Seq<char>>)
    requires
        forall|j: int|
            0 <= j < ks.len() ==> (#[trigger] ks[j]).len() > 0 && trim_chars(ks[j]) == ks[j]
                && comma_free(ks[j]),
    ensures
        kept_entries(split_commas(join(ks, ", "@))) == ks,
    decreases ks.len(),
{
    reveal_strlit(", ");
    if ks.len() == 0 {
        let e = Seq::<char>::empty();
        let one = seq![e];
        assert(one.drop_last() =~= Seq::<Seq<char>>::empty());
        assert(one.last() == e);
        assert(trim_chars(e) =~= e);
        assert(kept_entries(Seq::<Seq<char>>::empty()) =~= Seq::<Seq<char>>::empty());
        assert(kept_entries(one) == kept_entries(one.drop_last()));
        assert(kept_entries(one) =~= ks);
    } else if ks.len() == 1 {
        assert(ks[0].len() > 0);
        lemma_split_comma_free(ks[0]);
        let one = seq![ks[0]];
        assert(one.drop_last() =~= Seq::<Seq<char>>::empty());
        assert(one.last() == ks[0]);
        assert(kept_entries(Seq::<Seq<char>>::empty()) =~= Seq::<Seq<char>>::empty());
        assert(trim_chars(ks[0]) == ks[0] && ks[0].len() > 0);
        assert(kept_entries(one) == kept_entries(one.drop_last()).push(trim_chars(one.last())));
        assert(kept_entries(one) =~= ks);
    } else {
        let front = ks.drop_last();
        let last = ks.last();
        assert(ks[ks.len() - 1] == last);
        assert forall|j: int| 0 <= j < front.len() implies (#[trigger] front[j]).len() > 0
            && trim_chars(front[j]) == front[j] && comma_free(front[j]) by {
            assert(front[j] == ks[j]);
        }
        lemma_kept_round_trip(front);
        let x = join(front, ", "@);
        let y = seq![' '] + last;
        assert(join(ks, ", "@) == x + ", "@ + last);
        assert(x + ", "@ + last =~= x.push(',') + y);
        assert(comma_free(y)) by {
            assert forall|i: int| 0 <= i < y.len() implies y[i] != ',' by {
                if i > 0 {
                    assert(y[i] == last[i - 1]);
                }
            }
        }
        lemma_split_append_comma_free(x.push(','), y);
        assert(x.push(',').drop_last() =~= x);
        let px = split_commas(x);
        assert(split_commas(x.push(',')) == px.push(Seq::empty()));
        assert(Seq::<char>::empty() + y =~= y);
        assert(split_commas(x.push(',') + y) =~= px.push(y));
        lemma_trim_leading_space(last);
        assert(px.push(y).drop_last() =~= px);
        assert(kept_entries(px.push(y)) =~= ks);
    }
}

/// The `", "` separator round-trips through a reader that splits the value
/// on `,`, trims each piece and drops empty ones: it gets back exactly the
/// kept entries, provided no entry holds a comma.
pub proof fn law_list_separator_round_trips(items: Seq<Seq<char>>)
    requires
        forall|i: int| 0 <= i < items.len() ==> comma_free(#[trigger] items[i]),
    ensures
        kept_entries(split_commas(joined_entries(items))) == kept_entries(items),
{
    lemma_kept_entries_shape(items);
    lemma_kept_round_trip(kept_entries(items));
}

/// A relationship field is emitted exactly when its list is given and at
/// least one entry is not blank; its value is then the kept entries joined
/// with `", "`.
pub proof fn law_list_field_present_iff_nonblank_entry(name: Seq<char>, items: Seq<Seq<char>>)
    ensures
        list_property(name, Some(items)) == if kept_entries(items).len() == 0 {
            Seq::<(Seq<char>, Seq<char>)>::empty()
        } else {
            seq![(name, joined_entries(items))]
        },
        list_property(name, None) == Seq::<(Seq<char>, Seq<char>)>::empty(),
{
    lemma_kept_entries_shape(items);
    let ks = kept_entries(items);
    if ks.len() > 0 {
        assert(ks[ks.len() - 1].len() > 0);
        lemma_join_nonempty(ks, ", "@);
    }
}

/// The twelve fixed fields are emitted for every input, blank or not,
/// each with its input value.
pub proof fn law_fixed_fields_always_emitted(c: DebianControl)
    ensures
        control_property_list(c).contains(("Package"@, c.package_name@)),
        control_property_list(c).contains(("Version"@, c.version@)),
        control_property_list(c).contains(("Architecture"@, c.architecture@)),
        control_property_list(c).contains(("Maintainer"@, c.package_maintainer@)),
        control_property_list(c).contains(("Section"@, c.package_section@)),
        control_property_list(c).contains(("Priority"@, c.package_priority@)),
        control_property_list(c).contains(("Homepage"@, c.package_homepage@)),
        control_property_list(c).contains(("Installed-Size"@, c.package_installed_size@)),
        control_property_list(c).contains(("Source"@, c.package_source@)),
        control_property_list(c).contains(("Suite"@, c.suite@)),
        control_property_list(c).contains(("Codename"@, c.codename@)),
        control_property_list(c).contains(("License"@, c.license@)),
{
    let l = control_property_list(c);
    let m: int = (4 + scalar_property("Vendor"@, c.vendor@).len() + scalar_property(
        "Authors"@,
        c.package_authors@,
    ).len()) as int;
    let e = l.len() - 4;
    assert(l[0] == ("Package"@, c.package_name@));
    assert(l[1] == ("Version"@, c.version@));
    assert(l[2] == ("Architecture"@, c.architecture@));
    assert(l[3] == ("Maintainer"@, c.package_maintainer@));
    assert(l[m] == ("Section"@, c.package_section@));
    assert(l[m + 1] == ("Priority"@, c.package_priority@));
    assert(l[m + 2] == ("Homepage"@, c.package_homepage@));
    assert(l[m + 3] == ("Installed-Size"@, c.package_installed_size@));
    assert(l[e] == ("Source"@, c.package_source@));
    assert(l[e + 1] == ("Suite"@, c.suite@));
    assert(l[e + 2] == ("Codename"@, c.codename@));
    assert(l[e + 3] == ("License"@, c.license@));
}


/// With every optional field unset or blank, the stanza holds exactly the
/// twelve fixed fields, in their fixed order.
pub proof fn law_unset_optional_fields_omitted(c: DebianControl)
    requires
        is_blank(c.vendor@),
        is_blank(c.package_authors@),
        c.depends is None,
        c.pre_depends is None,
        c.recommended_depends is None,
        c.suggested_depends is None,
        c.conflicts is None,
        c.replaces is None,
        c.provides is None,
    ensures
        control_property_list(c) == seq![
            ("Package"@, c.package_name@),
            ("Version"@, c.version@),
            ("Architecture"@, c.architecture@),
            ("Maintainer"@, c.package_maintainer@),
            ("Section"@, c.package_section@),
            ("Priority"@, c.package_priority@),
            ("Homepage"@, c.package_homepage@),
            ("Installed-Size"@, c.package_installed_size@),
            ("Source"@, c.package_source@),
            ("Suite"@, c.suite@),
            ("Codename"@, c.codename@),
            ("License"@, c.license@),
        ],
{
    assert(control_property_list(c) =~= seq![
        ("Package"@, c.package_name@),
        ("Version"@, c.version@),
        ("Architecture"@, c.architecture@),
        ("Maintainer"@, c.package_maintainer@),
        ("Section"@, c.package_section@),
        ("Priority"@, c.package_priority@),
        ("Homepage"@, c.package_homepage@),
        ("Installed-Size"@, c.package_installed_size@),
        ("Source"@, c.package_source@),
        ("Suite"@, c.suite@),
        ("Codename"@, c.codename@),
        ("License"@, c.license@),
    ]);
}


proof fn lemma_contains_concat<A>()
    ensures
        forall|x: Seq<A>, y: Seq<A>, e: A| #[trigger] (x + y).contains(e) <== x.contains(e) || y.contains(e),
{
    assert forall|x: Seq<A>, y: Seq<A>, e: A| x.contains(e) || y.contains(e) implies #[trigger] (x
        + y).contains(e) by {
        if x.contains(e) {
            let i = choose|i: int| 0 <= i < x.len() && x[i] == e;
            assert((x + y)[i] == e);
        } else {
            let i = choose|i: int| 0 <= i < y.len() && y[i] == e;
            assert((x + y)[x.len() + i] == e);
        }
    }
}

/// Whether a relationship list is given and holds a non-blank entry.
pub open spec fn list_given(l: Option<Seq<Seq<char>>>) -> bool {
    l is Some && kept_entries(l->Some_0).len() > 0
}

/// The value of a given relationship list: its kept entries joined.
pub open spec fn list_value(l: Option<Seq<Seq<char>>>) -> Seq<char> {
    joined_entries(l->Some_0)
}

/// Each optional field is emitted from its own input alone, whatever the
/// other fields hold: `Vendor` and `Authors` whenever their value is not
/// blank, and each relationship field whenever its list holds a non-blank
/// entry, with the list's kept entries joined by `", "`.
pub proof fn law_optional_fields_follow_their_own_input(c: DebianControl)
    ensures
        !is_blank(c.vendor@) ==> control_property_list(c).contains(("Vendor"@, c.vendor@)),
        !is_blank(c.package_authors@) ==> control_property_list(c).contains(
            ("Authors"@, c.package_authors@),
        ),
        list_given(c.depends.deep_view()) ==> control_property_list(c).contains(
            ("Depends"@, list_value(c.depends.deep_view())),
        ),
        list_given(c.pre_depends.deep_view()) ==> control_property_list(c).contains(
            ("Pre-Depends"@, list_value(c.pre_depends.deep_view())),
        ),
        list_given(c.recommended_depends.deep_view()) ==> control_property_list(c).contains(
            ("Recommends"@, list_value(c.recommended_depends.deep_view())),
        ),
        list_given(c.suggested_depends.deep_view()) ==> control_property_list(c).contains(
            ("Suggests"@, list_value(c.suggested_depends.deep_view())),
        ),
        list_given(c.conflicts.deep_view()) ==> control_property_list(c).contains(
            ("Conflicts"@, list_value(c.conflicts.deep_view())),
        ),
        list_given(c.replaces.deep_view()) ==> control_property_list(c).contains(
            ("Replaces"@, list_value(c.replaces.deep_view())),
        ),
        list_given(c.provides.deep_view()) ==> control_property_list(c).contains(
            ("Provides"@, list_value(c.provides.deep_view())),
        ),
{
    lemma_contains_concat::<(Seq<char>, Seq<char>)>();
    let lists = seq![
        ("Depends"@, c.depends.deep_view()),
        ("Pre-Depends"@, c.pre_depends.deep_view()),
        ("Recommends"@, c.recommended_depends.deep_view()),
        ("Suggests"@, c.suggested_depends.deep_view()),
        ("Conflicts"@, c.conflicts.deep_view()),
        ("Replaces"@, c.replaces.deep_view()),
        ("Provides"@, c.provides.deep_view()),
    ];
    assert forall|i: int| 0 <= i < lists.len() && list_given(lists[i].1) implies (
    #[trigger] list_property(lists[i].0, lists[i].1)).contains(
        (lists[i].0, list_value(lists[i].1)),
    ) by {
        let items = lists[i].1->Some_0;
        law_list_field_present_iff_nonblank_entry(lists[i].0, items);
        assert(list_property(lists[i].0, lists[i].1)[0] == (lists[i].0, joined_entries(items)));
    }
    assert(list_property("Depends"@, c.depends.deep_view()) == list_property(lists[0].0, lists[0].1));
    assert(list_property("Pre-Depends"@, c.pre_depends.deep_view()) == list_property(lists[1].0, lists[1].1));
    assert(list_property("Recommends"@, c.recommended_depends.deep_view()) == list_property(lists[2].0, lists[2].1));
    assert(list_property("Suggests"@, c.suggested_depends.deep_view()) == list_property(lists[3].0, lists[3].1));
    assert(list_property("Conflicts"@, c.conflicts.deep_view()) == list_property(lists[4].0, lists[4].1));
    assert(list_property("Replaces"@, c.replaces.deep_view()) == list_property(lists[5].0, lists[5].1));
    assert(list_property("Provides"@, c.provides.deep_view()) == list_property(lists[6].0, lists[6].1));
    if !is_blank(c.vendor@) {
        assert(scalar_property("Vendor"@, c.vendor@)[0] == ("Vendor"@, c.vendor@));
    }
    if !is_blank(c.package_authors@) {
        assert(scalar_property("Authors"@, c.package_authors@)[0] == ("Authors"@, c.package_authors@));
    }
}


/// Whether a property is accounted for by its own input when it bears the
/// name of an optional field: `Vendor`/`Authors` with their non-blank value,
/// a relationship field with its given list's joined kept entries.
pub open spec fn optional_entry_justified(c: DebianControl, p: (Seq<char>, Seq<char>)) -> bool {
    &&& (p.0 == "Vendor"@ ==> !is_blank(c.vendor@) && p.1 == c.vendor@)
    &&& (p.0 == "Authors"@ ==> !is_blank(c.package_authors@) && p.1 == c.package_authors@)
    &&& (p.0 == "Depends"@ ==> list_given(c.depends.deep_view()) && p.1 == list_value(c.depends.deep_view()))
    &&& (p.0 == "Pre-Depends"@ ==> list_given(c.pre_depends.deep_view()) && p.1 == list_value(c.pre_depends.deep_view()))
    &&& (p.0 == "Recommends"@ ==> list_given(c.recommended_depends.deep_view()) && p.1 == list_value(c.recommended_depends.deep_view()))
    &&& (p.0 == "Suggests"@ ==> list_given(c.suggested_depends.deep_view()) && p.1 == list_value(c.suggested_depends.deep_view()))
    &&& (p.0 == "Conflicts"@ ==> list_given(c.conflicts.deep_view()) && p.1 == list_value(c.conflicts.deep_view()))
    &&& (p.0 == "Replaces"@ ==> list_given(c.replaces.deep_view()) && p.1 == list_value(c.replaces.deep_view()))
    &&& (p.0 == "Provides"@ ==> list_given(c.provides.deep_view()) && p.1 == list_value(c.provides.deep_view()))
}

proof fn lemma_justified_concat(
    c: DebianControl,
    x: Seq<(Seq<char>, Seq<char>)>,
    y: Seq<(Seq<char>, Seq<char>)>,
)
    requires
        forall|i: int| 0 <= i < x.len() ==> optional_entry_justified(c, #[trigger] x[i]),
        forall|i: int| 0 <= i < y.len() ==> optional_entry_justified(c, #[trigger] y[i]),
    ensures
        forall|i: int| 0 <= i < (x + y).len() ==> optional_entry_justified(c, #[trigger] (x + y)[i]),
{
    assert forall|i: int| 0 <= i < (x + y).len() implies optional_entry_justified(
        c,
        #[trigger] (x + y)[i],
    ) by {
        if i < x.len() {
            assert((x + y)[i] == x[i]);
        } else {
            assert((x + y)[i] == y[i - x.len()]);
        }
    }
}

/// The field names differ from one another in length or in their first or
/// third character.
proof fn lemma_field_name_keys()
    ensures
        "Package"@.len() == 7 && "Package"@[0] == 'P' && "Package"@[2] == 'c',
        "Version"@.len() == 7 && "Version"@[0] == 'V' && "Version"@[2] == 'r',
        "Architecture"@.len() == 12 && "Architecture"@[0] == 'A' && "Architecture"@[2] == 'c',
        "Maintainer"@.len() == 10 && "Maintainer"@[0] == 'M' && "Maintainer"@[2] == 'i',
        "Vendor"@.len() == 6 && "Vendor"@[0] == 'V' && "Vendor"@[2] == 'n',
        "Authors"@.len() == 7 && "Authors"@[0] == 'A' && "Authors"@[2] == 't',
        "Section"@.len() == 7 && "Section"@[0] == 'S' && "Section"@[2] == 'c',
        "Priority"@.len() == 8 && "Priority"@[0] == 'P' && "Priority"@[2] == 'i',
        "Homepage"@.len() == 8 && "Homepage"@[0] == 'H' && "Homepage"@[2] == 'm',
        "Installed-Size"@.len() == 14 && "Installed-Size"@[0] == 'I' && "Installed-Size"@[2] == 's',
        "Depends"@.len() == 7 && "Depends"@[0] == 'D' && "Depends"@[2] == 'p',
        "Pre-Depends"@.len() == 11 && "Pre-Depends"@[0] == 'P' && "Pre-Depends"@[2] == 'e',
        "Recommends"@.len() == 10 && "Recommends"@[0] == 'R' && "Recommends"@[2] == 'c',
        "Suggests"@.len() == 8 && "Suggests"@[0] == 'S' && "Suggests"@[2] == 'g',
        "Conflicts"@.len() == 9 && "Conflicts"@[0] == 'C' && "Conflicts"@[2] == 'n',
        "Replaces"@.len() == 8 && "Replaces"@[0] == 'R' && "Replaces"@[2] == 'p',
        "Provides"@.len() == 8 && "Provides"@[0] == 'P' && "Provides"@[2] == 'o',
        "Source"@.len() == 6 && "Source"@[0] == 'S' && "Source"@[2] == 'u',
        "Suite"@.len() == 5 && "Suite"@[0] == 'S' && "Suite"@[2] == 'i',
        "Codename"@.len() == 8 && "Codename"@[0] == 'C' && "Codename"@[2] == 'd',
        "License"@.len() == 7 && "License"@[0] == 'L' && "License"@[2] == 'c',
{
    reveal_strlit("Package");
    reveal_strlit("Version");
    reveal_strlit("Architecture");
    reveal_strlit("Maintainer");
    reveal_strlit("Vendor");
    reveal_strlit("Authors");
    reveal_strlit("Section");
    reveal_strlit("Priority");
    reveal_strlit("Homepage");
    reveal_strlit("Installed-Size");
    reveal_strlit("Depends");
    reveal_strlit("Pre-Depends");
    reveal_strlit("Recommends");
    reveal_strlit("Suggests");
    reveal_strlit("Conflicts");
    reveal_strlit("Replaces");
    reveal_strlit("Provides");
    reveal_strlit("Source");
    reveal_strlit("Suite");
    reveal_strlit("Codename");
    reveal_strlit("License");
}

/// Conversely, an optional field appears only because of its own input:
/// a property named `Vendor` or `Authors` carries that field's non-blank
/// value, and a property named after a relationship field carries that
/// list's joined kept entries, the list being given with a non-blank entry.
pub proof fn law_optional_fields_only_from_their_own_input(c: DebianControl)
    ensures
        forall|i: int|
            0 <= i < control_property_list(c).len() ==> optional_entry_justified(
                c,
                #[trigger] control_property_list(c)[i],
            ),
{
    lemma_field_name_keys();
    let p0 = seq![
        ("Package"@, c.package_name@),
        ("Version"@, c.version@),
        ("Architecture"@, c.architecture@),
        ("Maintainer"@, c.package_maintainer@),
    ];
    assert forall|i: int| 0 <= i < p0.len() implies optional_entry_justified(
        c,
        #[trigger] p0[i],
    ) by {}
    let p1 = scalar_property("Vendor"@, c.vendor@);
    assert forall|i: int| 0 <= i < p1.len() implies optional_entry_justified(
        c,
        #[trigger] p1[i],
    ) by {
        assert(p1[i] == ("Vendor"@, c.vendor@));
    }
    let p2 = scalar_property("Authors"@, c.package_authors@);
    assert forall|i: int| 0 <= i < p2.len() implies optional_entry_justified(
        c,
        #[trigger] p2[i],
    ) by {}
    let p3 = seq![
        ("Section"@, c.package_section@),
        ("Priority"@, c.package_priority@),
        ("Homepage"@, c.package_homepage@),
        ("Installed-Size"@, c.package_installed_size@),
    ];
    assert forall|i: int| 0 <= i < p3.len() implies optional_entry_justified(
        c,
        #[trigger] p3[i],
    ) by {}
    let p4 = list_property("Depends"@, c.depends.deep_view());
    assert forall|i: int| 0 <= i < p4.len() implies optional_entry_justified(
        c,
        #[trigger] p4[i],
    ) by {
        if let Some(items) = c.depends.deep_view() {
            law_list_field_present_iff_nonblank_entry("Depends"@, items);
        }
    }
    let p5 = list_property("Pre-Depends"@, c.pre_depends.deep_view());
    assert forall|i: int| 0 <= i < p5.len() implies optional_entry_justified(
        c,
        #[trigger] p5[i],
    ) by {
        if let Some(items) = c.pre_depends.deep_view() {
            law_list_field_present_iff_nonblank_entry("Pre-Depends"@, items);
        }
    }
    let p6 = list_property("Recommends"@, c.recommended_depends.deep_view());
    assert forall|i: int| 0 <= i < p6.len() implies optional_entry_justified(
        c,
        #[trigger] p6[i],
    ) by {
        if let Some(items) = c.recommended_depends.deep_view() {
            law_list_field_present_iff_nonblank_entry("Recommends"@, items);
        }
    }
    let p7 = list_property("Suggests"@, c.suggested_depends.deep_view());
    assert forall|i: int| 0 <= i < p7.len() implies optional_entry_justified(
        c,
        #[trigger] p7[i],
    ) by {
        if let Some(items) = c.suggested_depends.deep_view() {
            law_list_field_present_iff_nonblank_entry("Suggests"@, items);
        }
    }
    let p8 = list_property("Conflicts"@, c.conflicts.deep_view());
    assert forall|i: int| 0 <= i < p8.len() implies optional_entry_justified(
        c,
        #[trigger] p8[i],
    ) by {
        if let Some(items) = c.conflicts.deep_view() {
            law_list_field_present_iff_nonblank_entry("Conflicts"@, items);
        }
    }
    let p9 = list_property("Replaces"@, c.replaces.deep_view());
    assert forall|i: int| 0 <= i < p9.len() implies optional_entry_justified(
        c,
        #[trigger] p9[i],
    ) by {
        if let Some(items) = c.replaces.deep_view() {
            law_list_field_present_iff_nonblank_entry("Replaces"@, items);
        }
    }
    let p10 = list_property("Provides"@, c.provides.deep_view());
    assert forall|i: int| 0 <= i < p10.len() implies optional_entry_justified(
        c,
        #[trigger] p10[i],
    ) by {
        if let Some(items) = c.provides.deep_view() {
            law_list_field_present_iff_nonblank_entry("Provides"@, items);
        }
    }
    let p11 = seq![
        ("Source"@, c.package_source@),
        ("Suite"@, c.suite@),
        ("Codename"@, c.codename@),
        ("License"@, c.license@),
    ];
    assert forall|i: int| 0 <= i < p11.len() implies optional_entry_justified(
        c,
        #[trigger] p11[i],
    ) by {}
    let mut acc = p0;
    lemma_justified_concat(c, acc, p1);
    acc = acc + p1;
    lemma_justified_concat(c, acc, p2);
    acc = acc + p2;
    lemma_justified_concat(c, acc, p3);
    acc = acc + p3;
    lemma_justified_concat(c, acc, p4);
    acc = acc + p4;
    lemma_justified_concat(c, acc, p5);
    acc = acc + p5;
    lemma_justified_concat(c, acc, p6);
    acc = acc + p6;
    lemma_justified_concat(c, acc, p7);
    acc = acc + p7;
    lemma_justified_concat(c, acc, p8);
    acc = acc + p8;
    lemma_justified_concat(c, acc, p9);
    acc = acc + p9;
    lemma_justified_concat(c, acc, p10);
    acc = acc + p10;
    lemma_justified_concat(c, acc, p11);
    acc = acc + p11;
    assert(acc == control_property_list(c));
}

/// With every optional field given, the stanza holds all twenty-one fields
/// in this order: the relationship fields right after `Installed-Size`,
/// each in its own slot whatever the others hold.
pub proof fn law_full_stanza_order(c: DebianControl)
    requires
        !is_blank(c.vendor@),
        !is_blank(c.package_authors@),
        list_given(c.depends.deep_view()),
        list_given(c.pre_depends.deep_view()),
        list_given(c.recommended_depends.deep_view()),
        list_given(c.suggested_depends.deep_view()),
        list_given(c.conflicts.deep_view()),
        list_given(c.replaces.deep_view()),
        list_given(c.provides.deep_view()),
    ensures
        control_property_list(c) == seq![
            ("Package"@, c.package_name@),
            ("Version"@, c.version@),
            ("Architecture"@, c.architecture@),
            ("Maintainer"@, c.package_maintainer@),
            ("Vendor"@, c.vendor@),
            ("Authors"@, c.package_authors@),
            ("Section"@, c.package_section@),
            ("Priority"@, c.package_priority@),
            ("Homepage"@, c.package_homepage@),
            ("Installed-Size"@, c.package_installed_size@),
            ("Depends"@, list_value(c.depends.deep_view())),
            ("Pre-Depends"@, list_value(c.pre_depends.deep_view())),
            ("Recommends"@, list_value(c.recommended_depends.deep_view())),
            ("Suggests"@, list_value(c.suggested_depends.deep_view())),
            ("Conflicts"@, list_value(c.conflicts.deep_view())),
            ("Replaces"@, list_value(c.replaces.deep_view())),
            ("Provides"@, list_value(c.provides.deep_view())),
            ("Source"@, c.package_source@),
            ("Suite"@, c.suite@),
            ("Codename"@, c.codename@),
            ("License"@, c.license@),
        ],
{
    law_list_field_present_iff_nonblank_entry("Depends"@, c.depends.deep_view()->Some_0);
    law_list_field_present_iff_nonblank_entry("Pre-Depends"@, c.pre_depends.deep_view()->Some_0);
    law_list_field_present_iff_nonblank_entry("Recommends"@, c.recommended_depends.deep_view()->Some_0);
    law_list_field_present_iff_nonblank_entry("Suggests"@, c.suggested_depends.deep_view()->Some_0);
    law_list_field_present_iff_nonblank_entry("Conflicts"@, c.conflicts.deep_view()->Some_0);
    law_list_field_present_iff_nonblank_entry("Replaces"@, c.replaces.deep_view()->Some_0);
    law_list_field_present_iff_nonblank_entry("Provides"@, c.provides.deep_view()->Some_0);
    assert(control_property_list(c) =~= seq![
            ("Package"@, c.package_name@),
            ("Version"@, c.version@),
            ("Architecture"@, c.architecture@),
            ("Maintainer"@, c.package_maintainer@),
            ("Vendor"@, c.vendor@),
            ("Authors"@, c.package_authors@),
            ("Section"@, c.package_section@),
            ("Priority"@, c.package_priority@),
            ("Homepage"@, c.package_homepage@),
            ("Installed-Size"@, c.package_installed_size@),
            ("Depends"@, list_value(c.depends.deep_view())),
            ("Pre-Depends"@, list_value(c.pre_depends.deep_view())),
            ("Recommends"@, list_value(c.recommended_depends.deep_view())),
            ("Suggests"@, list_value(c.suggested_depends.deep_view())),
            ("Conflicts"@, list_value(c.conflicts.deep_view())),
            ("Replaces"@, list_value(c.replaces.deep_view())),
            ("Provides"@, list_value(c.provides.deep_view())),
            ("Source"@, c.package_source@),
            ("Suite"@, c.suite@),
            ("Codename"@, c.codename@),
            ("License"@, c.license@),
    ]);
}

} // verus!

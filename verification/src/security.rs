//! Settings that carry security authority.
//!
//! Their values come from the security context that the host installs, never
//! from what a client sets.
use std::sync::Arc;
use vstd::prelude::*;
use crate::error;
use crate::error::SqlError;
use crate::settings;
use crate::settings::Settings;
use crate::text;

verus! {

/// What the names of protected settings end in.
pub open spec fn protected_suffixes() -> Seq<Seq<char>> {
    seq![
        "current_tenant"@,
        "current_workspace"@,
        "current_user"@,
        "current_client"@,
        "current_roles"@,
        "current_scopes"@,
        "current_email"@,
        "current_name"@,
        "current_session"@,
        "authentication_strength"@,
    ]
}

/// Whether a setting carries security authority: its name is, but for the case
/// of its letters, one of the protected ones with the prefix `bicdb.` or
/// `carrier.`.
pub open spec fn is_protected(name: Seq<char>) -> bool {
    exists|k: int|
        0 <= k < protected_suffixes().len() && (text::lower(name) == "bicdb."@
            + #[trigger] protected_suffixes()[k] || text::lower(name) == "carrier."@
            + protected_suffixes()[k])
}

/// Whether no setting is a protected one.
pub open spec fn unprotected<V>(m: Map<Seq<char>, V>) -> bool {
    forall|name: Seq<char>| #[trigger] m.dom().contains(name) ==> !is_protected(name)
}

/// What is left without the protected settings.
pub open spec fn stripped<V>(m: Map<Seq<char>, V>) -> Map<Seq<char>, V> {
    m.restrict(m.dom().filter(|name: Seq<char>| !is_protected(name)))
}

/// Stripping leaves no protected setting and touches no other.
pub proof fn law_stripped<V>(m: Map<Seq<char>, V>)
    ensures
        unprotected(stripped(m)),
        forall|name: Seq<char>|
            !is_protected(name) ==> (#[trigger] stripped(m).dom().contains(name)
                <==> m.dom().contains(name)),
        forall|name: Seq<char>|
            !is_protected(name) && m.dom().contains(name) ==> #[trigger] stripped(m)[name]
                == m[name],
        unprotected(m) ==> stripped(m) == m,
{
    if unprotected(m) {
        assert(stripped(m) =~= m);
    }
}

pub fn is_protected_security_setting(name: &str) -> (r: bool)
    ensures
        r == is_protected(name@),
{
    let lowered = text::to_lower(name);
    let suffixes = [
        "current_tenant",
        "current_workspace",
        "current_user",
        "current_client",
        "current_roles",
        "current_scopes",
        "current_email",
        "current_name",
        "current_session",
        "authentication_strength",
    ];
    assert(text::slice_views(suffixes@) =~= protected_suffixes());
    let mut i: usize = 0;
    while i < suffixes.len()
        invariant
            i <= suffixes.len(),
            text::slice_views(suffixes@) == protected_suffixes(),
            lowered@ == text::lower(name@),
            forall|k: int|
                0 <= k < i ==> lowered@ != "bicdb."@ + #[trigger] protected_suffixes()[k]
                    && lowered@ != "carrier."@ + protected_suffixes()[k],
        decreases suffixes.len() - i,
    {
        assert(suffixes@[i as int]@ == text::slice_views(suffixes@)[i as int]);
        let one = text::concat("bicdb.", suffixes[i]);
        let other = text::concat("carrier.", suffixes[i]);
        if text::text_eq(lowered.as_str(), one.as_str()) || text::text_eq(
            lowered.as_str(),
            other.as_str(),
        ) {
            assert(protected_suffixes()[i as int] == suffixes@[i as int]@);
            return true;
        }
        i = i + 1;
    }
    false
}

/// Takes the protected settings out.
pub fn strip_protected_security_settings(given: &mut Settings)
    ensures
        final(given)@ == stripped(old(given)@),
{
    let names = given.names();
    let ghost all = text::views(names@);
    let ghost before = given@;
    let mut i: usize = 0;
    while i < names.len()
        invariant
            i <= names.len(),
            all == text::views(names@),
            before == old(given)@,
            forall|name: Seq<char>| #[trigger] given@.dom().contains(name) ==> before.dom().contains(
                name,
            ) && given@[name] == before[name],
            forall|name: Seq<char>|
                before.dom().contains(name) && !is_protected(name)
                    ==> #[trigger] given@.dom().contains(name),
            forall|k: int| 0 <= k < i && is_protected(#[trigger] all[k]) ==> !given@.dom().contains(all[k]),
        decreases names.len() - i,
    {
        assert(all[i as int] == names@[i as int]@);
        if is_protected_security_setting(names[i].as_str()) {
            given.remove(names[i].as_str());
        }
        i = i + 1;
    }
    proof {
        assert forall|name: Seq<char>| given@.dom().contains(name) implies !is_protected(name) by {
            assert(all.contains(name));
            let k = choose|k: int| 0 <= k < all.len() && all[k] == name;
            assert(all[k] == name);
        }
        assert(given@ =~= stripped(before));
    }
}

/// Whether the server offers itself as a PostgreSQL server: the settings that
/// are protected otherwise are plain settings then.
pub open spec fn offers_compatibility(m: Map<Seq<char>, Seq<char>>) -> bool {
    match settings::setting(m, "bicdb.postgres_version_banner"@) {
        Some(value) => {
            let v = text::lower(value);
            v == "1"@ || v == "on"@ || v == "true"@ || v == "yes"@
        },
        None => false,
    }
}

pub fn postgres_compatibility_gucs_enabled(given: &Settings) -> (r: bool)
    ensures
        r == offers_compatibility(given@),
{
    match given.get("bicdb.postgres_version_banner") {
        Some(value) => {
            let v = text::to_lower(value);
            text::text_eq(v.as_str(), "1") || text::text_eq(v.as_str(), "on") || text::text_eq(
                v.as_str(),
                "true",
            ) || text::text_eq(v.as_str(), "yes")
        },
        None => false,
    }
}

/// The identity that a host has established. Roles and scopes are in order.
#[derive(Debug)]
pub struct SecurityContext {
    pub tenant_id: String,
    pub workspace_id: Option<String>,
    pub user_id: String,
    pub client_id: Option<String>,
    pub session_id: Option<String>,
    pub authentication_strength: String,
    pub roles: Vec<String>,
    pub scopes: Vec<String>,
    pub policy_attributes: Settings,
}

pub struct ContextView {
    pub tenant_id: Seq<char>,
    pub workspace_id: Option<Seq<char>>,
    pub user_id: Seq<char>,
    pub client_id: Option<Seq<char>>,
    pub session_id: Option<Seq<char>>,
    pub authentication_strength: Seq<char>,
    pub roles: Seq<Seq<char>>,
    pub scopes: Seq<Seq<char>>,
    pub policy_attributes: Map<Seq<char>, Seq<char>>,
}

impl View for SecurityContext {
    type V = ContextView;

    open spec fn view(&self) -> ContextView {
        ContextView {
            tenant_id: self.tenant_id@,
            workspace_id: error::view_option(self.workspace_id),
            user_id: self.user_id@,
            client_id: error::view_option(self.client_id),
            session_id: error::view_option(self.session_id),
            authentication_strength: self.authentication_strength@,
            roles: text::views(self.roles@),
            scopes: text::views(self.scopes@),
            policy_attributes: self.policy_attributes@,
        }
    }
}

pub open spec fn context_view(c: Option<SecurityContext>) -> Option<ContextView> {
    match c {
        Some(c) => Some(c@),
        None => None,
    }
}

pub open spec fn text_or_empty(s: Option<Seq<char>>) -> Seq<char> {
    match s {
        Some(s) => s,
        None => Seq::empty(),
    }
}

/// The values that a context gives to the protected settings, in the order of
/// their suffixes. A value that is missing is empty.
pub open spec fn authority(c: ContextView) -> Seq<Seq<char>> {
    seq![
        c.tenant_id,
        text_or_empty(c.workspace_id),
        c.user_id,
        text_or_empty(c.client_id),
        text::joined(c.roles, ","@),
        text::joined(c.scopes, ","@),
        text_or_empty(settings::setting(c.policy_attributes, "email"@)),
        text_or_empty(settings::setting(c.policy_attributes, "name"@)),
        text_or_empty(c.session_id),
        c.authentication_strength,
    ]
}

/// Settings with those of the first `count` suffixes given, under both
/// prefixes, where the value is not empty.
pub open spec fn given_authority(
    m: Map<Seq<char>, Seq<char>>,
    values: Seq<Seq<char>>,
    count: nat,
) -> Map<Seq<char>, Seq<char>>
    decreases count,
{
    if count == 0 {
        m
    } else {
        let before = given_authority(m, values, (count - 1) as nat);
        let suffix = protected_suffixes()[count - 1];
        let value = values[count - 1];
        if value.len() == 0 {
            before
        } else {
            before.insert("bicdb."@ + suffix, value).insert("carrier."@ + suffix, value)
        }
    }
}

/// Settings bound to a security context. Without one they keep their protected
/// settings where the server offers compatibility, and lose them otherwise. With
/// one, its values take the place of the protected settings.
pub open spec fn bound(m: Map<Seq<char>, Seq<char>>, context: Option<ContextView>) -> Map<
    Seq<char>,
    Seq<char>,
> {
    match context {
        None => if offers_compatibility(m) {
            m
        } else {
            stripped(m)
        },
        Some(c) => given_authority(stripped(m), authority(c), 10),
    }
}

fn owned_or_empty(s: &Option<String>) -> (r: String)
    ensures
        r@ == text_or_empty(error::view_option(*s)),
{
    match s {
        Some(s) => s.clone(),
        None => {
            let empty: [char; 0] = [];
            let r = text::string_of(&empty);
            assert(r@ =~= Seq::<char>::empty());
            r
        },
    }
}

fn attribute(c: &SecurityContext, name: &str) -> (r: String)
    ensures
        r@ == text_or_empty(settings::setting(c@.policy_attributes, name@)),
{
    match c.policy_attributes.get(name) {
        Some(v) => v.to_owned(),
        None => owned_or_empty(&None),
    }
}

/// The values that a context gives to the protected settings.
fn authority_values(c: &SecurityContext) -> (r: Vec<String>)
    ensures
        text::views(r@) == authority(c@),
{
    let mut out: Vec<String> = Vec::new();
    out.push(c.tenant_id.clone());
    out.push(owned_or_empty(&c.workspace_id));
    out.push(c.user_id.clone());
    out.push(owned_or_empty(&c.client_id));
    out.push(text::join(&c.roles, ","));
    out.push(text::join(&c.scopes, ","));
    out.push(attribute(c, "email"));
    out.push(attribute(c, "name"));
    out.push(owned_or_empty(&c.session_id));
    out.push(c.authentication_strength.clone());
    assert(text::views(out@) =~= authority(c@));
    out
}

pub fn bind_trusted_security_settings(given: &mut Settings, context: &Option<SecurityContext>)
    ensures
        final(given)@ == bound(old(given)@, context_view(*context)),
{
    let c = match context {
        None => {
            if !postgres_compatibility_gucs_enabled(given) {
                strip_protected_security_settings(given);
            }
            return ;
        },
        Some(c) => c,
    };
    strip_protected_security_settings(given);
    let values = authority_values(c);
    let suffixes = [
        "current_tenant",
        "current_workspace",
        "current_user",
        "current_client",
        "current_roles",
        "current_scopes",
        "current_email",
        "current_name",
        "current_session",
        "authentication_strength",
    ];
    assert(text::slice_views(suffixes@) =~= protected_suffixes());
    assert(values@.len() == text::views(values@).len());
    let mut i: usize = 0;
    while i < suffixes.len()
        invariant
            i <= suffixes.len(),
            suffixes.len() == 10,
            values.len() == 10,
            text::slice_views(suffixes@) == protected_suffixes(),
            text::views(values@) == authority(c@),
            given@ == given_authority(stripped(old(given)@), authority(c@), i as nat),
        decreases suffixes.len() - i,
    {
        assert(suffixes@[i as int]@ == text::slice_views(suffixes@)[i as int]);
        assert(values@[i as int]@ == text::views(values@)[i as int]);
        let value = values[i].as_str();
        if value.unicode_len() != 0 {
            given.insert(text::concat("bicdb.", suffixes[i]), value.to_owned());
            given.insert(text::concat("carrier.", suffixes[i]), value.to_owned());
        }
        i = i + 1;
    }
}

proof fn lemma_suffixes_lower()
    ensures
        forall|k: int|
            0 <= k < 10 ==> text::lower("bicdb."@ + #[trigger] protected_suffixes()[k]) == "bicdb."@
                + protected_suffixes()[k] && text::lower("carrier."@ + protected_suffixes()[k])
                == "carrier."@ + protected_suffixes()[k],
{
    reveal_strlit("bicdb.");
    reveal_strlit("carrier.");
    reveal_strlit("current_tenant");
    reveal_strlit("current_workspace");
    reveal_strlit("current_user");
    reveal_strlit("current_client");
    reveal_strlit("current_roles");
    reveal_strlit("current_scopes");
    reveal_strlit("current_email");
    reveal_strlit("current_name");
    reveal_strlit("current_session");
    reveal_strlit("authentication_strength");
    assert forall|k: int| 0 <= k < 10 implies text::lower(
        "bicdb."@ + #[trigger] protected_suffixes()[k],
    ) == "bicdb."@ + protected_suffixes()[k] && text::lower("carrier."@ + protected_suffixes()[k])
        == "carrier."@ + protected_suffixes()[k] by {
        assert(text::lower("bicdb."@ + protected_suffixes()[k]) =~= "bicdb."@
            + protected_suffixes()[k]);
        assert(text::lower("carrier."@ + protected_suffixes()[k]) =~= "carrier."@
            + protected_suffixes()[k]);
    }
}

proof fn lemma_given_authority(
    a: Map<Seq<char>, Seq<char>>,
    b: Map<Seq<char>, Seq<char>>,
    values: Seq<Seq<char>>,
    count: nat,
    name: Seq<char>,
)
    requires
        count <= 10,
        unprotected(a),
        unprotected(b),
    ensures
        !is_protected(name) ==> settings::setting(given_authority(a, values, count), name)
            == settings::setting(a, name),
        is_protected(name) ==> settings::setting(given_authority(a, values, count), name)
            == settings::setting(given_authority(b, values, count), name),
    decreases count,
{
    if count > 0 {
        lemma_given_authority(a, b, values, (count - 1) as nat, name);
        lemma_suffixes_lower();
        let k = count - 1;
        assert(is_protected("bicdb."@ + protected_suffixes()[k]));
        assert(is_protected("carrier."@ + protected_suffixes()[k]));
    }
}

/// With a security context, what the protected settings are does not depend on
/// what they were: two sessions with the same context have the same.
pub proof fn law_authority_from_context(
    a: Map<Seq<char>, Seq<char>>,
    b: Map<Seq<char>, Seq<char>>,
    c: ContextView,
    name: Seq<char>,
)
    requires
        is_protected(name),
    ensures
        settings::setting(bound(a, Some(c)), name) == settings::setting(bound(b, Some(c)), name),
{
    law_stripped(a);
    law_stripped(b);
    lemma_given_authority(stripped(a), stripped(b), authority(c), 10, name);
}

/// Binding leaves the settings alone that are not protected.
pub proof fn law_bound_keeps_others(
    m: Map<Seq<char>, Seq<char>>,
    context: Option<ContextView>,
    name: Seq<char>,
)
    requires
        !is_protected(name),
    ensures
        settings::setting(bound(m, context), name) == settings::setting(m, name),
{
    law_stripped(m);
    if context is Some {
        lemma_given_authority(stripped(m), stripped(m), authority(context->0), 10, name);
    }
}

/// Without a context and without compatibility, no protected setting has a
/// value: a missing identity gives no authority.
pub proof fn law_no_context_no_authority(m: Map<Seq<char>, Seq<char>>, name: Seq<char>)
    requires
        is_protected(name),
        !offers_compatibility(m),
    ensures
        settings::setting(bound(m, None), name) is None,
{
    law_stripped(m);
}

/// Binding twice to one context is binding once.
pub proof fn law_bound_twice(m: Map<Seq<char>, Seq<char>>, context: Option<ContextView>)
    ensures
        bound(bound(m, context), context) == bound(m, context),
{
    let once = bound(m, context);
    let twice = bound(once, context);
    lemma_banner_unprotected();
    law_bound_keeps_others(m, context, "bicdb.postgres_version_banner"@);
    assert forall|name: Seq<char>| settings::setting(twice, name) == settings::setting(once, name) by {
        if is_protected(name) {
            match context {
                Some(c) => law_authority_from_context(once, m, c, name),
                None => {
                    if !offers_compatibility(m) {
                        law_no_context_no_authority(m, name);
                        law_no_context_no_authority(once, name);
                    }
                },
            }
        } else {
            law_bound_keeps_others(once, context, name);
        }
    }
    lemma_same_settings(twice, once);
}

pub proof fn lemma_same_settings(a: Map<Seq<char>, Seq<char>>, b: Map<Seq<char>, Seq<char>>)
    requires
        forall|name: Seq<char>| settings::setting(a, name) == settings::setting(b, name),
    ensures
        a == b,
{
    assert forall|name: Seq<char>| a.dom().contains(name) <==> b.dom().contains(name) by {
        assert(settings::setting(a, name) == settings::setting(b, name));
    }
    assert forall|name: Seq<char>| a.dom().contains(name) implies a[name] == b[name] by {
        assert(settings::setting(a, name) == settings::setting(b, name));
    }
    assert(a =~= b);
}

proof fn lemma_banner_unprotected()
    ensures
        !is_protected("bicdb.postgres_version_banner"@),
{
    reveal_strlit("bicdb.postgres_version_banner");
    reveal_strlit("bicdb.");
    reveal_strlit("carrier.");
    reveal_strlit("current_tenant");
    reveal_strlit("current_workspace");
    reveal_strlit("current_user");
    reveal_strlit("current_client");
    reveal_strlit("current_roles");
    reveal_strlit("current_scopes");
    reveal_strlit("current_email");
    reveal_strlit("current_name");
    reveal_strlit("current_session");
    reveal_strlit("authentication_strength");
    let banner = text::lower("bicdb.postgres_version_banner"@);
    assert(banner[0] == 'b');
    assert(banner[6] == 'p');
    assert forall|k: int| 0 <= k < 10 implies banner != "bicdb."@ + #[trigger] protected_suffixes()[k]
        && banner != "carrier."@ + protected_suffixes()[k] by {
        let one = "bicdb."@ + protected_suffixes()[k];
        assert(one[6] == protected_suffixes()[k][0]);
        let other = "carrier."@ + protected_suffixes()[k];
        assert(other[0] == 'c');
    }
}

pub open spec fn protected_setting_error(name: Seq<char>) -> error::ErrorView {
    error::authorization_error(name + " is a protected session attribute"@)
}

pub fn protected_security_setting_error(name: &str) -> (e: SqlError)
    ensures
        e@ == protected_setting_error(name@),
{
    SqlError::authorization(text::concat(name, " is a protected session attribute"))
}

pub open spec fn system_columns() -> Seq<Seq<char>> {
    seq!["tableoid"@, "xmin"@, "xmax"@, "cmin"@, "cmax"@, "ctid"@]
}

pub open spec fn system_column_error(name: Seq<char>) -> error::ErrorView {
    error::data_exception_error(
        "42701"@,
        "column name \""@ + name + "\" conflicts with a system column name"@,
        Some(name),
    )
}

/// Refuses the names that PostgreSQL keeps for system columns.
pub fn reject_postgres_system_column_name(name: &str) -> (r: Result<(), SqlError>)
    ensures
        match r {
            Ok(()) => !system_columns().contains(text::lower(name@)),
            Err(e) => system_columns().contains(text::lower(name@)) && e@ == system_column_error(
                name@,
            ),
        },
{
    let lowered = text::to_lower(name);
    let names = ["tableoid", "xmin", "xmax", "cmin", "cmax", "ctid"];
    assert(text::slice_views(names@) =~= system_columns());
    if text::one_of(lowered.as_str(), &names) {
        Err(
            SqlError::data_exception(
                "42701",
                text::concat3("column name \"", name, "\" conflicts with a system column name"),
                Some(name.to_owned()),
            ),
        )
    } else {
        Ok(())
    }
}

/// Whether an extension is one of the PostGIS family.
pub open spec fn is_postgis(name: Seq<char>) -> bool {
    text::lower(name) == "postgis"@ || text::starts_with(text::lower(name), "postgis_"@)
}

pub open spec fn postgis_error() -> error::ErrorView {
    error::unsupported_error(
        "PostGIS is not installed; BicDB Spatial is a distinct, explicitly limited API"@,
    )
}

pub fn reject_postgis_extension(name: &str) -> (r: Result<(), SqlError>)
    ensures
        match r {
            Ok(()) => !is_postgis(name@),
            Err(e) => is_postgis(name@) && e@ == postgis_error(),
        },
{
    let lowered = text::to_lower(name);
    if text::text_eq(lowered.as_str(), "postgis") || text::has_prefix(
        lowered.as_str(),
        "postgis_",
    ) {
        Err(
            SqlError::unsupported(
                "PostGIS is not installed; BicDB Spatial is a distinct, explicitly limited API".to_owned(),
            ),
        )
    } else {
        Ok(())
    }
}

fn names_a_protected_setting(given: &Settings) -> (r: bool)
    ensures
        r == !unprotected(given@),
{
    let names = given.names();
    let ghost all = text::views(names@);
    let mut i: usize = 0;
    while i < names.len()
        invariant
            i <= names.len(),
            all == text::views(names@),
            forall|name: Seq<char>| #[trigger]
                all.contains(name) <==> given@.dom().contains(name),
            forall|k: int| 0 <= k < i ==> !is_protected(#[trigger] all[k]),
        decreases names.len() - i,
    {
        assert(all[i as int] == names@[i as int]@);
        if is_protected_security_setting(names[i].as_str()) {
            assert(all.contains(all[i as int]));
            return true;
        }
        i = i + 1;
    }
    assert forall|name: Seq<char>| #[trigger] given@.dom().contains(name) implies !is_protected(
        name,
    ) by {
        assert(all.contains(name));
        let k = choose|k: int| 0 <= k < all.len() && all[k] == name;
        assert(!is_protected(all[k]));
    }
    false
}

/// Binds the protected settings in a map that is shared. It is handed on as it is where
/// there is no context and no protected setting.
pub fn bind_trusted_security_settings_shared(
    given: Arc<Settings>,
    context: &Option<SecurityContext>,
) -> (r: Arc<Settings>)
    ensures
        (*r)@ == bound((*given)@, context_view(*context)),
        context is None && unprotected((*given)@) ==> r == given,
{
    if context.is_none() && !names_a_protected_setting(&given) {
        assert((*given)@ =~= bound((*given)@, context_view(*context)));
        return given;
    }
    let mut owned = given.copied();
    bind_trusted_security_settings(&mut owned, context);
    Arc::new(owned)
}

} // verus!

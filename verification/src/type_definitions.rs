//! Definitions of base types and range types.
use vstd::prelude::*;
use crate::error;
use crate::error::SqlError;
use crate::text;

verus! {

/// How values are aligned.
#[derive(Clone, Copy, Debug, PartialEq, Eq, Structural)]
pub enum Alignment {
    Character,
    Int2,
    Int4,
    Double,
}

/// How values are stored.
#[derive(Clone, Copy, Debug, PartialEq, Eq, Structural)]
pub enum Storage {
    Plain,
    External,
    Extended,
    Main,
}

/// An option of the definition of a base type. A length that is missing is a
/// variable one; an option that needs a native hook is kept as it is written.
#[derive(Debug)]
pub enum BaseTypeOption {
    Input(String),
    Output(String),
    Receive(String),
    Send(String),
    Like(String),
    DefaultExpr(String),
    Element(String),
    InternalLength(Option<u64>),
    PassedByValue,
    Aligned(Alignment),
    Stored(Storage),
    Category(char),
    Preferred(bool),
    Delimiter(String),
    Collatable(bool),
    NativeHook(String),
}

/// The definition of a base type.
#[derive(Debug)]
pub struct BaseTypeDefinition {
    pub input: Option<String>,
    pub output: Option<String>,
    pub receive: Option<String>,
    pub send: Option<String>,
    pub like_type: Option<String>,
    pub internal_length: Option<i64>,
    pub passed_by_value: Option<bool>,
    pub alignment: Option<char>,
    pub storage: Option<char>,
    pub category: Option<char>,
    pub preferred: bool,
    pub default_expr: Option<String>,
    pub element_type: Option<String>,
    pub delimiter: Option<char>,
    pub collatable: bool,
}

pub struct BaseView {
    pub input: Option<Seq<char>>,
    pub output: Option<Seq<char>>,
    pub receive: Option<Seq<char>>,
    pub send: Option<Seq<char>>,
    pub like_type: Option<Seq<char>>,
    pub internal_length: Option<i64>,
    pub passed_by_value: Option<bool>,
    pub alignment: Option<char>,
    pub storage: Option<char>,
    pub category: Option<char>,
    pub preferred: bool,
    pub default_expr: Option<Seq<char>>,
    pub element_type: Option<Seq<char>>,
    pub delimiter: Option<char>,
    pub collatable: bool,
}

impl View for BaseTypeDefinition {
    type V = BaseView;

    open spec fn view(&self) -> BaseView {
        BaseView {
            input: error::view_option(self.input),
            output: error::view_option(self.output),
            receive: error::view_option(self.receive),
            send: error::view_option(self.send),
            like_type: error::view_option(self.like_type),
            internal_length: self.internal_length,
            passed_by_value: self.passed_by_value,
            alignment: self.alignment,
            storage: self.storage,
            category: self.category,
            preferred: self.preferred,
            default_expr: error::view_option(self.default_expr),
            element_type: error::view_option(self.element_type),
            delimiter: self.delimiter,
            collatable: self.collatable,
        }
    }
}

/// A definition that says nothing.
pub open spec fn no_base() -> BaseView {
    BaseView {
        input: None,
        output: None,
        receive: None,
        send: None,
        like_type: None,
        internal_length: None,
        passed_by_value: None,
        alignment: None,
        storage: None,
        category: None,
        preferred: false,
        default_expr: None,
        element_type: None,
        delimiter: None,
        collatable: false,
    }
}

pub open spec fn repeated_error(option: Seq<char>) -> error::ErrorView {
    error::invalid_sql_error("CREATE TYPE option "@ + option + " specified more than once"@)
}

/// The error of setting what has been set before.
pub open spec fn once<T>(slot: Option<T>, option: Seq<char>) -> Option<error::ErrorView> {
    match slot {
        Some(_) => Some(repeated_error(option)),
        None => None,
    }
}

pub open spec fn alignment_char(a: Alignment) -> char {
    match a {
        Alignment::Character => 'c',
        Alignment::Int2 => 's',
        Alignment::Int4 => 'i',
        Alignment::Double => 'd',
    }
}

pub open spec fn storage_char(s: Storage) -> char {
    match s {
        Storage::Plain => 'p',
        Storage::External => 'e',
        Storage::Extended => 'x',
        Storage::Main => 'm',
    }
}

/// The definition with an option.
pub open spec fn with_base_option(d: BaseView, option: BaseTypeOption) -> Result<
    BaseView,
    error::ErrorView,
> {
    match option {
        BaseTypeOption::Input(s) => match once(d.input, "INPUT"@) {
            Some(e) => Err(e),
            None => Ok(BaseView { input: Some(s@), ..d }),
        },
        BaseTypeOption::Output(s) => match once(d.output, "OUTPUT"@) {
            Some(e) => Err(e),
            None => Ok(BaseView { output: Some(s@), ..d }),
        },
        BaseTypeOption::Receive(s) => match once(d.receive, "RECEIVE"@) {
            Some(e) => Err(e),
            None => Ok(BaseView { receive: Some(s@), ..d }),
        },
        BaseTypeOption::Send(s) => match once(d.send, "SEND"@) {
            Some(e) => Err(e),
            None => Ok(BaseView { send: Some(s@), ..d }),
        },
        BaseTypeOption::Like(s) => match once(d.like_type, "LIKE"@) {
            Some(e) => Err(e),
            None => Ok(BaseView { like_type: Some(s@), ..d }),
        },
        BaseTypeOption::DefaultExpr(s) => match once(d.default_expr, "DEFAULT"@) {
            Some(e) => Err(e),
            None => Ok(BaseView { default_expr: Some(s@), ..d }),
        },
        BaseTypeOption::Element(s) => match once(d.element_type, "ELEMENT"@) {
            Some(e) => Err(e),
            None => Ok(BaseView { element_type: Some(s@), ..d }),
        },
        BaseTypeOption::InternalLength(length) => if length is Some && length->0 > i64::MAX {
            Err(error::out_of_range_error("base type internal length exceeds bigint"@))
        } else {
            match once(d.internal_length, "INTERNALLENGTH"@) {
                Some(e) => Err(e),
                None => Ok(
                    BaseView {
                        internal_length: Some(
                            match length {
                                Some(n) => n as i64,
                                None => -1i64,
                            },
                        ),
                        ..d
                    },
                ),
            }
        },
        BaseTypeOption::PassedByValue => match once(d.passed_by_value, "PASSEDBYVALUE"@) {
            Some(e) => Err(e),
            None => Ok(BaseView { passed_by_value: Some(true), ..d }),
        },
        BaseTypeOption::Aligned(a) => match once(d.alignment, "ALIGNMENT"@) {
            Some(e) => Err(e),
            None => Ok(BaseView { alignment: Some(alignment_char(a)), ..d }),
        },
        BaseTypeOption::Stored(s) => match once(d.storage, "STORAGE"@) {
            Some(e) => Err(e),
            None => Ok(BaseView { storage: Some(storage_char(s)), ..d }),
        },
        BaseTypeOption::Category(c) => match once(d.category, "CATEGORY"@) {
            Some(e) => Err(e),
            None => Ok(BaseView { category: Some(c), ..d }),
        },
        BaseTypeOption::Preferred(p) => Ok(BaseView { preferred: p, ..d }),
        BaseTypeOption::Delimiter(s) => if s@.len() == 0 {
            Err(error::invalid_sql_error("CREATE TYPE DELIMITER cannot be empty"@))
        } else if s@.len() > 1 {
            Err(error::invalid_sql_error("CREATE TYPE DELIMITER must be a single character"@))
        } else {
            match once(d.delimiter, "DELIMITER"@) {
                Some(e) => Err(e),
                None => Ok(BaseView { delimiter: Some(s@[0]), ..d }),
            }
        },
        BaseTypeOption::Collatable(c) => Ok(BaseView { collatable: c, ..d }),
        BaseTypeOption::NativeHook(written) => Err(
            error::unsupported_error(
                "CREATE TYPE option "@ + written@
                    + " requires an unregistered native extension hook"@,
            ),
        ),
    }
}

/// The definition that options make, or the error of the first that is wrong.
pub open spec fn base_definition(options: Seq<BaseTypeOption>) -> Result<BaseView, error::ErrorView>
    decreases options.len(),
{
    if options.len() == 0 {
        Ok(no_base())
    } else {
        match base_definition(options.drop_last()) {
            Ok(d) => with_base_option(d, options.last()),
            Err(e) => Err(e),
        }
    }
}

/// Sets what must not have been set before.
pub fn set_base_type_option<T>(slot: &mut Option<T>, value: T, option: &str) -> (r: Result<
    (),
    SqlError,
>)
    ensures
        *final(slot) == Some(value),
        match (r, once(*old(slot), option@)) {
            (Ok(()), None) => true,
            (Err(e), Some(view)) => e@ == view,
            _ => false,
        },
{
    let before = slot.take();
    *slot = Some(value);
    match before {
        Some(_) => Err(
            SqlError::invalid_sql(
                text::concat3("CREATE TYPE option ", option, " specified more than once"),
            ),
        ),
        None => Ok(()),
    }
}

fn apply_base_option(d: &mut BaseTypeDefinition, option: &BaseTypeOption) -> (r: Result<(), SqlError>)
    ensures
        match (r, with_base_option(old(d)@, *option)) {
            (Ok(()), Ok(view)) => final(d)@ == view,
            (Err(e), Err(view)) => e@ == view,
            _ => false,
        },
{
    match option {
        BaseTypeOption::Input(s) => set_base_type_option(&mut d.input, s.clone(), "INPUT"),
        BaseTypeOption::Output(s) => set_base_type_option(&mut d.output, s.clone(), "OUTPUT"),
        BaseTypeOption::Receive(s) => set_base_type_option(&mut d.receive, s.clone(), "RECEIVE"),
        BaseTypeOption::Send(s) => set_base_type_option(&mut d.send, s.clone(), "SEND"),
        BaseTypeOption::Like(s) => set_base_type_option(&mut d.like_type, s.clone(), "LIKE"),
        BaseTypeOption::DefaultExpr(s) => set_base_type_option(&mut d.default_expr, s.clone(), "DEFAULT"),
        BaseTypeOption::Element(s) => set_base_type_option(&mut d.element_type, s.clone(), "ELEMENT"),
        BaseTypeOption::InternalLength(length) => {
            let n: i64 = match length {
                Some(n) => {
                    if *n > i64::MAX as u64 {
                        return Err(
                            SqlError::out_of_range("base type internal length exceeds bigint"),
                        );
                    }
                    *n as i64
                },
                None => -1,
            };
            set_base_type_option(&mut d.internal_length, n, "INTERNALLENGTH")
        },
        BaseTypeOption::PassedByValue => set_base_type_option(
            &mut d.passed_by_value,
            true,
            "PASSEDBYVALUE",
        ),
        BaseTypeOption::Aligned(a) => {
            let c = match a {
                Alignment::Character => 'c',
                Alignment::Int2 => 's',
                Alignment::Int4 => 'i',
                Alignment::Double => 'd',
            };
            set_base_type_option(&mut d.alignment, c, "ALIGNMENT")
        },
        BaseTypeOption::Stored(s) => {
            let c = match s {
                Storage::Plain => 'p',
                Storage::External => 'e',
                Storage::Extended => 'x',
                Storage::Main => 'm',
            };
            set_base_type_option(&mut d.storage, c, "STORAGE")
        },
        BaseTypeOption::Category(c) => set_base_type_option(&mut d.category, *c, "CATEGORY"),
        BaseTypeOption::Preferred(p) => {
            d.preferred = *p;
            Ok(())
        },
        BaseTypeOption::Delimiter(s) => {
            let chars = text::chars_of(s.as_str());
            if chars.len() == 0 {
                return Err(
                    SqlError::invalid_sql("CREATE TYPE DELIMITER cannot be empty".to_owned()),
                );
            }
            if chars.len() > 1 {
                return Err(
                    SqlError::invalid_sql(
                        "CREATE TYPE DELIMITER must be a single character".to_owned(),
                    ),
                );
            }
            set_base_type_option(&mut d.delimiter, chars[0], "DELIMITER")
        },
        BaseTypeOption::Collatable(c) => {
            d.collatable = *c;
            Ok(())
        },
        BaseTypeOption::NativeHook(written) => Err(
            SqlError::unsupported(
                text::concat3(
                    "CREATE TYPE option ",
                    written.as_str(),
                    " requires an unregistered native extension hook",
                ),
            ),
        ),
    }
}

proof fn lemma_base_error_stays(options: Seq<BaseTypeOption>, i: int)
    requires
        0 <= i <= options.len(),
        base_definition(options.take(i)) is Err,
    ensures
        base_definition(options) == base_definition(options.take(i)),
    decreases options.len(),
{
    if i == options.len() {
        assert(options.take(i) =~= options);
    } else {
        assert(options.drop_last().take(i) =~= options.take(i));
        lemma_base_error_stays(options.drop_last(), i);
    }
}

/// The definition that options make.
pub fn parse_base_type_definition(options: &Vec<BaseTypeOption>) -> (r: Result<
    BaseTypeDefinition,
    SqlError,
>)
    ensures
        match (r, base_definition(options@)) {
            (Ok(d), Ok(view)) => d@ == view,
            (Err(e), Err(view)) => e@ == view,
            _ => false,
        },
{
    let mut d = BaseTypeDefinition {
        input: None,
        output: None,
        receive: None,
        send: None,
        like_type: None,
        internal_length: None,
        passed_by_value: None,
        alignment: None,
        storage: None,
        category: None,
        preferred: false,
        default_expr: None,
        element_type: None,
        delimiter: None,
        collatable: false,
    };
    let mut i: usize = 0;
    while i < options.len()
        invariant
            i <= options.len(),
            base_definition(options@.take(i as int)) == Ok::<BaseView, error::ErrorView>(d@),
        decreases options.len() - i,
    {
        assert(options@.take(i + 1).drop_last() =~= options@.take(i as int));
        assert(options@.take(i + 1).last() == options@[i as int]);
        match apply_base_option(&mut d, &options[i]) {
            Ok(()) => {},
            Err(e) => {
                proof {
                    lemma_base_error_stays(options@, i + 1);
                }
                return Err(e);
            },
        }
        i = i + 1;
    }
    assert(options@.take(options@.len() as int) =~= options@);
    Ok(d)
}

/// An option of the definition of a range type.
#[derive(Debug)]
pub enum RangeTypeOption {
    Subtype(String),
    SubtypeOpclass(String),
    Collation(String),
    Canonical(String),
    SubtypeDiff(String),
    MultirangeName(String),
}

/// The definition of a range type.
#[derive(Debug)]
pub struct RangeTypeDefinition {
    pub subtype: Option<String>,
    pub subtype_opclass: Option<String>,
    pub collation: Option<String>,
    pub canonical: Option<String>,
    pub subtype_diff: Option<String>,
    pub multirange_name: Option<String>,
}

pub struct RangeDefinitionView {
    pub subtype: Option<Seq<char>>,
    pub subtype_opclass: Option<Seq<char>>,
    pub collation: Option<Seq<char>>,
    pub canonical: Option<Seq<char>>,
    pub subtype_diff: Option<Seq<char>>,
    pub multirange_name: Option<Seq<char>>,
}

impl View for RangeTypeDefinition {
    type V = RangeDefinitionView;

    open spec fn view(&self) -> RangeDefinitionView {
        RangeDefinitionView {
            subtype: error::view_option(self.subtype),
            subtype_opclass: error::view_option(self.subtype_opclass),
            collation: error::view_option(self.collation),
            canonical: error::view_option(self.canonical),
            subtype_diff: error::view_option(self.subtype_diff),
            multirange_name: error::view_option(self.multirange_name),
        }
    }
}

/// The definition with an option. The name of an operator class is in lower case.
pub open spec fn with_range_option(d: RangeDefinitionView, option: RangeTypeOption) -> Result<
    RangeDefinitionView,
    error::ErrorView,
> {
    match option {
        RangeTypeOption::Subtype(s) => match once(d.subtype, "SUBTYPE"@) {
            Some(e) => Err(e),
            None => Ok(RangeDefinitionView { subtype: Some(s@), ..d }),
        },
        RangeTypeOption::SubtypeOpclass(s) => match once(d.subtype_opclass, "SUBTYPE_OPCLASS"@) {
            Some(e) => Err(e),
            None => Ok(RangeDefinitionView { subtype_opclass: Some(text::lower(s@)), ..d }),
        },
        RangeTypeOption::Collation(s) => match once(d.collation, "COLLATION"@) {
            Some(e) => Err(e),
            None => Ok(RangeDefinitionView { collation: Some(s@), ..d }),
        },
        RangeTypeOption::Canonical(s) => match once(d.canonical, "CANONICAL"@) {
            Some(e) => Err(e),
            None => Ok(RangeDefinitionView { canonical: Some(s@), ..d }),
        },
        RangeTypeOption::SubtypeDiff(s) => match once(d.subtype_diff, "SUBTYPE_DIFF"@) {
            Some(e) => Err(e),
            None => Ok(RangeDefinitionView { subtype_diff: Some(s@), ..d }),
        },
        RangeTypeOption::MultirangeName(s) => match once(
            d.multirange_name,
            "MULTIRANGE_TYPE_NAME"@,
        ) {
            Some(e) => Err(e),
            None => Ok(RangeDefinitionView { multirange_name: Some(s@), ..d }),
        },
    }
}

/// The definition that options make, or the error of the first that is wrong.
pub open spec fn range_definition(options: Seq<RangeTypeOption>) -> Result<
    RangeDefinitionView,
    error::ErrorView,
>
    decreases options.len(),
{
    if options.len() == 0 {
        Ok(
            RangeDefinitionView {
                subtype: None,
                subtype_opclass: None,
                collation: None,
                canonical: None,
                subtype_diff: None,
                multirange_name: None,
            },
        )
    } else {
        match range_definition(options.drop_last()) {
            Ok(d) => with_range_option(d, options.last()),
            Err(e) => Err(e),
        }
    }
}

fn apply_range_option(d: &mut RangeTypeDefinition, option: &RangeTypeOption) -> (r: Result<
    (),
    SqlError,
>)
    ensures
        match (r, with_range_option(old(d)@, *option)) {
            (Ok(()), Ok(view)) => final(d)@ == view,
            (Err(e), Err(view)) => e@ == view,
            _ => false,
        },
{
    match option {
        RangeTypeOption::Subtype(s) => set_base_type_option(&mut d.subtype, s.clone(), "SUBTYPE"),
        RangeTypeOption::SubtypeOpclass(s) => set_base_type_option(
            &mut d.subtype_opclass,
            text::to_lower(s.as_str()),
            "SUBTYPE_OPCLASS",
        ),
        RangeTypeOption::Collation(s) => set_base_type_option(
            &mut d.collation,
            s.clone(),
            "COLLATION",
        ),
        RangeTypeOption::Canonical(s) => set_base_type_option(
            &mut d.canonical,
            s.clone(),
            "CANONICAL",
        ),
        RangeTypeOption::SubtypeDiff(s) => set_base_type_option(
            &mut d.subtype_diff,
            s.clone(),
            "SUBTYPE_DIFF",
        ),
        RangeTypeOption::MultirangeName(s) => set_base_type_option(
            &mut d.multirange_name,
            s.clone(),
            "MULTIRANGE_TYPE_NAME",
        ),
    }
}

proof fn lemma_range_error_stays(options: Seq<RangeTypeOption>, i: int)
    requires
        0 <= i <= options.len(),
        range_definition(options.take(i)) is Err,
    ensures
        range_definition(options) == range_definition(options.take(i)),
    decreases options.len(),
{
    if i == options.len() {
        assert(options.take(i) =~= options);
    } else {
        assert(options.drop_last().take(i) =~= options.take(i));
        lemma_range_error_stays(options.drop_last(), i);
    }
}

/// The definition that options make.
pub fn parse_range_type_definition(options: &Vec<RangeTypeOption>) -> (r: Result<
    RangeTypeDefinition,
    SqlError,
>)
    ensures
        match (r, range_definition(options@)) {
            (Ok(d), Ok(view)) => d@ == view,
            (Err(e), Err(view)) => e@ == view,
            _ => false,
        },
{
    let mut d = RangeTypeDefinition {
        subtype: None,
        subtype_opclass: None,
        collation: None,
        canonical: None,
        subtype_diff: None,
        multirange_name: None,
    };
    let mut i: usize = 0;
    while i < options.len()
        invariant
            i <= options.len(),
            range_definition(options@.take(i as int)) == Ok::<
                RangeDefinitionView,
                error::ErrorView,
            >(d@),
        decreases options.len() - i,
    {
        assert(options@.take(i + 1).drop_last() =~= options@.take(i as int));
        assert(options@.take(i + 1).last() == options@[i as int]);
        match apply_range_option(&mut d, &options[i]) {
            Ok(()) => {},
            Err(e) => {
                proof {
                    lemma_range_error_stays(options@, i + 1);
                }
                return Err(e);
            },
        }
        i = i + 1;
    }
    assert(options@.take(options@.len() as int) =~= options@);
    Ok(d)
}

/// The name of the multirange type that goes with a range type.
pub open spec fn multirange_name(range_name: Seq<char>) -> Seq<char> {
    if text::ends_with(text::lower(range_name), "range"@) {
        range_name.take(range_name.len() - "range"@.len()) + "multirange"@
    } else {
        range_name + "_multirange"@
    }
}

pub fn default_multirange_name(range_name: &str) -> (r: String)
    ensures
        r@ == multirange_name(range_name@),
{
    let lowered = text::to_lower(range_name);
    if text::has_suffix(lowered.as_str(), "range") {
        proof {
            reveal_strlit("range");
        }
        let chars = text::chars_of(range_name);
        let start = text::string_range(chars.as_slice(), 0, chars.len() - 5);
        assert(start@ =~= range_name@.take(range_name@.len() - 5));
        text::concat(start.as_str(), "multirange")
    } else {
        text::concat(range_name, "_multirange")
    }
}

/// A multirange type never has the name of its range type.
pub proof fn law_multirange_name_differs(range_name: Seq<char>)
    ensures
        multirange_name(range_name) != range_name,
{
    reveal_strlit("range");
    reveal_strlit("multirange");
    reveal_strlit("_multirange");
    assert(multirange_name(range_name).len() > range_name.len());
}

/// The schema and the name that the parts of a type's name give. Without a schema
/// it is in the default one.
pub open spec fn paired_identity(
    parts: Seq<Seq<char>>,
    default_schema: Seq<char>,
    written: Seq<char>,
    what: Seq<char>,
) -> Result<(Seq<char>, Seq<char>), error::ErrorView> {
    if parts.len() == 1 {
        Ok((default_schema, parts[0]))
    } else if parts.len() == 2 {
        Ok((parts[0], parts[1]))
    } else {
        Err(error::invalid_sql_error("invalid "@ + what + " name "@ + written))
    }
}

fn identity_from_parts(parts: &Vec<String>, default_schema: &str, written: &str, what: &str) -> (r:
    Result<(String, String), SqlError>)
    ensures
        match (
            r,
            paired_identity(text::views(parts@), default_schema@, written@, what@),
        ) {
            (Ok((a, b)), Ok(view)) => (a@, b@) == view,
            (Err(e), Err(view)) => e@ == view,
            _ => false,
        },
{
    let ghost all = text::views(parts@);
    assert(all.len() == parts@.len());
    if parts.len() == 1 {
        assert(all[0] == parts@[0]@);
        Ok((default_schema.to_owned(), parts[0].clone()))
    } else if parts.len() == 2 {
        assert(all[0] == parts@[0]@);
        assert(all[1] == parts@[1]@);
        Ok((parts[0].clone(), parts[1].clone()))
    } else {
        let most = text::concat3("invalid ", what, " name ");
        Err(SqlError::invalid_sql(text::concat(most.as_str(), written)))
    }
}

/// The schema and the name of a multirange type.
pub fn paired_type_identity(parts: &Vec<String>, default_schema: &str, written: &str) -> (r: Result<
    (String, String),
    SqlError,
>)
    ensures
        match (
            r,
            paired_identity(
                text::views(parts@),
                default_schema@,
                written@,
                "multirange type"@,
            ),
        ) {
            (Ok((a, b)), Ok(view)) => (a@, b@) == view,
            (Err(e), Err(view)) => e@ == view,
            _ => false,
        },
{
    identity_from_parts(parts, default_schema, written, "multirange type")
}

/// The schema and the name of a user-defined type.
pub fn user_type_identity(parts: &Vec<String>, written: &str) -> (r: Result<
    (String, String),
    SqlError,
>)
    ensures
        match (
            r,
            paired_identity(text::views(parts@), "public"@, written@, "user-defined type"@),
        ) {
            (Ok((a, b)), Ok(view)) => (a@, b@) == view,
            (Err(e), Err(view)) => e@ == view,
            _ => false,
        },
{
    identity_from_parts(parts, "public", written, "user-defined type")
}

/// The types that a range type can range over.
#[derive(Clone, Copy, Debug, PartialEq, Eq, Structural)]
pub enum RangeSubtype {
    Int4,
    Int8,
    Numeric,
    Date,
    Timestamp,
    Timestamptz,
}

/// The type with a name that a range type can range over.
pub open spec fn range_subtype(name: Seq<char>) -> Option<RangeSubtype> {
    if name == "int4"@ {
        Some(RangeSubtype::Int4)
    } else if name == "int8"@ {
        Some(RangeSubtype::Int8)
    } else if name == "numeric"@ {
        Some(RangeSubtype::Numeric)
    } else if name == "date"@ {
        Some(RangeSubtype::Date)
    } else if name == "timestamp"@ {
        Some(RangeSubtype::Timestamp)
    } else if name == "timestamptz"@ {
        Some(RangeSubtype::Timestamptz)
    } else {
        None
    }
}

pub fn subtype_named(name: &str) -> (r: Option<RangeSubtype>)
    ensures
        r == range_subtype(name@),
{
    if text::text_eq(name, "int4") {
        Some(RangeSubtype::Int4)
    } else if text::text_eq(name, "int8") {
        Some(RangeSubtype::Int8)
    } else if text::text_eq(name, "numeric") {
        Some(RangeSubtype::Numeric)
    } else if text::text_eq(name, "date") {
        Some(RangeSubtype::Date)
    } else if text::text_eq(name, "timestamp") {
        Some(RangeSubtype::Timestamp)
    } else if text::text_eq(name, "timestamptz") {
        Some(RangeSubtype::Timestamptz)
    } else {
        None
    }
}

pub open spec fn builtin_range(s: RangeSubtype) -> Seq<char> {
    match s {
        RangeSubtype::Int4 => "int4range"@,
        RangeSubtype::Int8 => "int8range"@,
        RangeSubtype::Numeric => "numrange"@,
        RangeSubtype::Date => "daterange"@,
        RangeSubtype::Timestamp => "tsrange"@,
        RangeSubtype::Timestamptz => "tstzrange"@,
    }
}

/// The built-in range type over a subtype.
pub fn builtin_range_spec_for_subtype(subtype: &str) -> (r: Option<&'static str>)
    ensures
        text::view_str(r) == (match range_subtype(subtype@) {
            Some(s) => Some(builtin_range(s)),
            None => None,
        }),
{
    match subtype_named(subtype) {
        Some(RangeSubtype::Int4) => Some("int4range"),
        Some(RangeSubtype::Int8) => Some("int8range"),
        Some(RangeSubtype::Numeric) => Some("numrange"),
        Some(RangeSubtype::Date) => Some("daterange"),
        Some(RangeSubtype::Timestamp) => Some("tsrange"),
        Some(RangeSubtype::Timestamptz) => Some("tstzrange"),
        None => None,
    }
}

/// The operator class that orders what a range type ranges over.
pub fn default_range_opclass_name(subtype: RangeSubtype) -> (r: &'static str)
    ensures
        r@ == (match subtype {
            RangeSubtype::Int4 => "int4_ops"@,
            RangeSubtype::Int8 => "int8_ops"@,
            RangeSubtype::Numeric => "numeric_ops"@,
            RangeSubtype::Date => "date_ops"@,
            RangeSubtype::Timestamp => "timestamp_ops"@,
            RangeSubtype::Timestamptz => "timestamptz_ops"@,
        }),
{
    match subtype {
        RangeSubtype::Int4 => "int4_ops",
        RangeSubtype::Int8 => "int8_ops",
        RangeSubtype::Numeric => "numeric_ops",
        RangeSubtype::Date => "date_ops",
        RangeSubtype::Timestamp => "timestamp_ops",
        RangeSubtype::Timestamptz => "timestamptz_ops",
    }
}

/// The function that tells how far apart two values are.
pub fn default_range_subdiff_name(subtype: RangeSubtype) -> (r: &'static str)
    ensures
        r@ == (match subtype {
            RangeSubtype::Int4 => "int4range_subdiff"@,
            RangeSubtype::Int8 => "int8range_subdiff"@,
            RangeSubtype::Numeric => "numrange_subdiff"@,
            RangeSubtype::Date => "daterange_subdiff"@,
            RangeSubtype::Timestamp => "tsrange_subdiff"@,
            RangeSubtype::Timestamptz => "tstzrange_subdiff"@,
        }),
{
    match subtype {
        RangeSubtype::Int4 => "int4range_subdiff",
        RangeSubtype::Int8 => "int8range_subdiff",
        RangeSubtype::Numeric => "numrange_subdiff",
        RangeSubtype::Date => "daterange_subdiff",
        RangeSubtype::Timestamp => "tsrange_subdiff",
        RangeSubtype::Timestamptz => "tstzrange_subdiff",
    }
}

/// The function that makes ranges over whole numbers and days canonical.
pub fn range_canonical_symbol_for_subtype(subtype: &str) -> (r: Option<&'static str>)
    ensures
        text::view_str(r) == (match range_subtype(subtype@) {
            Some(RangeSubtype::Int4) => Some("int4range_canonical"@),
            Some(RangeSubtype::Int8) => Some("int8range_canonical"@),
            Some(RangeSubtype::Date) => Some("daterange_canonical"@),
            _ => None,
        }),
{
    match subtype_named(subtype) {
        Some(RangeSubtype::Int4) => Some("int4range_canonical"),
        Some(RangeSubtype::Int8) => Some("int8range_canonical"),
        Some(RangeSubtype::Date) => Some("daterange_canonical"),
        _ => None,
    }
}

} // verus!

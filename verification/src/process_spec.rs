//! Declarative process specifications and their resolution.
//!
//! A configuration source yields, per process name, a raw record whose
//! fields may each be missing. Resolution turns a raw record into a
//! complete [`ProcessSpec`], or reports which required field is missing.
//! A missing `hide` field defaults to `false`.

use vstd::prelude::*;

verus! {

/// One entry as a configuration source hands it over: every field may be
/// absent. A `hide` value of unusable type is represented as `None` by the
/// loader, which this resolution then defaults to `false`.
pub struct RawSpec {
    pub path: Option<String>,
    pub args: Option<String>,
    pub hide: Option<bool>,
}

/// Abstract value of a [`RawSpec`].
pub struct RawSpecView {
    pub path: Option<Seq<char>>,
    pub args: Option<Seq<char>>,
    pub hide: Option<bool>,
}

impl View for RawSpec {
    type V = RawSpecView;

    open spec fn view(&self) -> RawSpecView {
        RawSpecView {
            path: match self.path {
                Option::Some(p) => Option::Some(p@),
                Option::None => Option::None,
            },
            args: match self.args {
                Option::Some(a) => Option::Some(a@),
                Option::None => Option::None,
            },
            hide: self.hide,
        }
    }
}

/// A fully resolved specification: ready to be turned into a spawn request.
#[derive(Debug)]
pub struct ProcessSpec {
    pub name: String,
    pub path: String,
    pub args: String,
    pub hide: bool,
}

/// Abstract value of a [`ProcessSpec`].
pub struct ProcessSpecView {
    pub name: Seq<char>,
    pub path: Seq<char>,
    pub args: Seq<char>,
    pub hide: bool,
}

impl View for ProcessSpec {
    type V = ProcessSpecView;

    open spec fn view(&self) -> ProcessSpecView {
        ProcessSpecView {
            name: self.name@,
            path: self.path@,
            args: self.args@,
            hide: self.hide,
        }
    }
}

/// The required field a raw record lacks; such a record is skipped.
#[derive(PartialEq, Eq, Structural, Clone, Copy, Debug)]
pub enum MissingField {
    Path,
    Args,
}

/// What resolving one raw record yields.
pub open spec fn spec_resolve(name: Seq<char>, raw: RawSpecView) -> Result<
    ProcessSpecView,
    MissingField,
> {
    match raw.path {
        Option::None => Result::Err(MissingField::Path),
        Option::Some(path) => match raw.args {
            Option::None => Result::Err(MissingField::Args),
            Option::Some(args) => Result::Ok(
                ProcessSpecView {
                    name: name,
                    path: path,
                    args: args,
                    hide: match raw.hide {
                        Option::Some(b) => b,
                        Option::None => false,
                    },
                },
            ),
        },
    }
}

/// An entry missing `path` or `args` resolves to exactly the matching
/// error, so it is skipped and no process is ever spawned for it; and
/// since resolution is a function of the single entry alone, every
/// other entry resolves exactly as it would on its own.
pub proof fn lemma_missing_field_rejected(name: Seq<char>, raw: RawSpecView)
    requires
        raw.path is None || raw.args is None,
    ensures
        spec_resolve(name, raw) is Err,
        raw.path is None ==> spec_resolve(name, raw) == Result::<ProcessSpecView,
        MissingField>::Err(MissingField::Path),
        raw.path is Some && raw.args is None ==> spec_resolve(name, raw) == Result::<
            ProcessSpecView,
            MissingField,
        >::Err(MissingField::Args),
{
}

/// Resolve one raw record: reject it if `path` or `args` is missing,
/// default a missing `hide` to `false`.
pub fn resolve_spec(name: &str, raw: &RawSpec) -> (r: Result<ProcessSpec, MissingField>)
    ensures
        match r {
            Result::Ok(p) => spec_resolve(name@, raw@) == Result::<ProcessSpecView,
            MissingField>::Ok(p@),
            Result::Err(e) => spec_resolve(name@, raw@) == Result::<ProcessSpecView,
            MissingField>::Err(e),
        },
{
    let path = match &raw.path {
        Option::Some(p) => p.clone(),
        Option::None => {
            return Result::Err(MissingField::Path);
        },
    };
    let args = match &raw.args {
        Option::Some(a) => a.clone(),
        Option::None => {
            return Result::Err(MissingField::Args);
        },
    };
    let hide = match raw.hide {
        Option::Some(b) => b,
        Option::None => false,
    };
    Result::Ok(ProcessSpec { name: name.to_owned(), path, args, hide })
}

} // verus!

//! The configuration resolver: merges compiled-in defaults, environment
//! overrides, an optionally named stored profile, and explicit command
//! tokens into one final configuration, optionally persisting the result
//! as a new named profile.
//!
//! Precedence, lowest to highest: defaults, then environment overrides
//! (each independently type-checked, invalid values silently ignored),
//! then — when a profile load is requested — the stored profile, which
//! replaces the lower layers entirely, then explicit options field by
//! field. Loading a profile is authoritative: the stored record comes back
//! verbatim. Requesting a load and a save in one invocation is rejected
//! outright rather than silently preferring one.

use vstd::prelude::*;

use crate::cli::ArgType;
use crate::cli::ArgValue;
use crate::cli::ArgValueV;
use crate::cli::Argument;
use crate::cli::ArgumentV;
use crate::database::ProfileStore;
use crate::database::StoreError;
use crate::database::contains_name;
use crate::database::lookup;
use crate::database::record_of_row;
use crate::database::remove_named;
use crate::database::row_of;
use crate::generation_logic::GenerationData;
use crate::generation_logic::RecordV;
use crate::generation_logic::default_record;
use crate::text::parse_bool;
use crate::text::parse_usize;
use crate::text::spec_parse_bool;
use crate::text::spec_parse_usize;

verus! {

/// A snapshot of the recognized environment overrides, taken by the caller
/// so that resolution is deterministic and needs no access to the process
/// environment. Each field holds the raw text of one variable, or `None`
/// where the variable is unset.
pub struct EnvSnapshot {
    pub min_length: Option<String>,
    pub include_numbers: Option<String>,
    pub include_special: Option<String>,
    pub include_ucase: Option<String>,
    pub use_words: Option<String>,
}

/// The minimum length after the environment layer: the variable's value
/// when it parses as a valid minimum length — at least one — and the
/// fallback otherwise. A value below one is an invalid field value and is
/// silently ignored, like a value that does not parse.
pub open spec fn env_min_length(field: Option<String>, base: usize) -> usize {
    match field {
        Some(s) => match spec_parse_usize(s@) {
            Some(v) => if v >= 1 {
                v
            } else {
                base
            },
            None => base,
        },
        None => base,
    }
}

/// A boolean field after the environment layer: the variable's value when
/// it parses, the fallback otherwise.
pub open spec fn env_bool(field: Option<String>, base: bool) -> bool {
    match field {
        Some(s) => match spec_parse_bool(s@) {
            Some(v) => v,
            None => base,
        },
        None => base,
    }
}

/// The base layer of resolution: the compiled-in defaults, overridden
/// field by field by whatever environment variables parse.
pub open spec fn base_record(env: EnvSnapshot) -> RecordV {
    RecordV {
        minimum_length: env_min_length(env.min_length, 8),
        include_numbers: env_bool(env.include_numbers, false),
        include_special: env_bool(env.include_special, false),
        include_ucase: env_bool(env.include_ucase, false),
        use_words: env_bool(env.use_words, true),
        profile: None,
        overwrite: false,
    }
}

/// One explicit option applied on top of a record: a boolean option sets
/// its switch, an integer-valued minimum length of at least one sets the
/// length, and every other combination — among them a minimum length below
/// one, an invalid field value — leaves the record as it was.
pub open spec fn apply_option(rec: RecordV, opt: ArgumentV) -> RecordV {
    match opt {
        ArgumentV::Parsed(t, ArgValueV::Bool(b)) => match t {
            ArgType::IncludeNumbers => RecordV { include_numbers: b, ..rec },
            ArgType::IncludeSpecial => RecordV { include_special: b, ..rec },
            ArgType::IncludeUcase => RecordV { include_ucase: b, ..rec },
            ArgType::UseWords => RecordV { use_words: b, ..rec },
            ArgType::Overwrite => RecordV { overwrite: b, ..rec },
            _ => rec,
        },
        ArgumentV::Parsed(ArgType::MinimumLength, ArgValueV::Int(n)) => if n >= 1 {
            RecordV { minimum_length: n, ..rec }
        } else {
            rec
        },
        _ => rec,
    }
}

/// The explicit options applied left to right, so a repeated option's last
/// occurrence wins.
pub open spec fn apply_options(rec: RecordV, opts: Seq<ArgumentV>) -> RecordV
    decreases opts.len(),
{
    if opts.len() == 0 {
        rec
    } else {
        apply_options(apply_option(rec, opts[0]), opts.skip(1))
    }
}

/// The text carried by the last text-valued option of the given kind, if
/// any.
pub open spec fn last_text(opts: Seq<ArgumentV>, kind: ArgType) -> Option<Seq<char>>
    decreases opts.len(),
{
    if opts.len() == 0 {
        None
    } else if last_text(opts.skip(1), kind) is Some {
        last_text(opts.skip(1), kind)
    } else {
        match opts[0] {
            ArgumentV::Parsed(t, ArgValueV::Text(s)) => if t == kind {
                Some(s)
            } else {
                None
            },
            _ => None,
        }
    }
}

/// The name under which the invocation asks to save, if any.
pub open spec fn spec_new_profile(opts: Seq<ArgumentV>) -> Option<Seq<char>> {
    last_text(opts, ArgType::NewProfile)
}

/// The name of the stored profile the invocation asks to load, if any.
pub open spec fn spec_profile_ref(opts: Seq<ArgumentV>) -> Option<Seq<char>> {
    last_text(opts, ArgType::Profile)
}

/// The record resolved from defaults, environment and explicit options,
/// before any profile binding.
pub open spec fn merged_record(env: EnvSnapshot, opts: Seq<ArgumentV>) -> RecordV {
    apply_options(base_record(env), opts)
}

/// The save outcome reported beside a resolved record.
#[derive(Debug, Clone, Copy, PartialEq, Eq, Structural)]
pub enum SaveStatus {
    /// No save was requested.
    NotRequested,
    /// The resolved record was stored under the requested name.
    Saved,
    /// A profile with the requested name already exists and no overwrite
    /// was instructed; nothing was stored.
    DuplicateName,
    /// The store reported a failure; nothing was stored.
    StorageFailure,
}

/// Why resolution failed outright.
#[derive(Debug, Clone, Copy, PartialEq, Eq, Structural)]
pub enum ResolveError {
    /// The profile named for loading is not in the store.
    ProfileNotFound,
    /// Loading from the store failed.
    Storage,
    /// One invocation asks both to load a profile and to save a new one.
    ConflictingProfileOptions,
}

/// Law: explicit options never bind a record to a profile; the merge
/// leaves the profile binding exactly as the base layer had it.
pub proof fn lemma_apply_options_keeps_profile(rec: RecordV, opts: Seq<ArgumentV>)
    ensures
        apply_options(rec, opts).profile == rec.profile,
    decreases opts.len(),
{
    if opts.len() > 0 {
        lemma_apply_options_keeps_profile(apply_option(rec, opts[0]), opts.skip(1));
    }
}

proof fn lemma_apply_options_keeps_min_positive(rec: RecordV, opts: Seq<ArgumentV>)
    requires
        rec.minimum_length >= 1,
    ensures
        apply_options(rec, opts).minimum_length >= 1,
    decreases opts.len(),
{
    if opts.len() > 0 {
        lemma_apply_options_keeps_min_positive(apply_option(rec, opts[0]), opts.skip(1));
    }
}

/// Law: a merged record always carries a defined minimum length of at
/// least one — the defaults start there, and neither the environment layer
/// nor any explicit option can push it below.
pub proof fn lemma_merged_minimum_length_at_least_one(env: EnvSnapshot, opts: Seq<ArgumentV>)
    ensures
        merged_record(env, opts).minimum_length >= 1,
{
    lemma_apply_options_keeps_min_positive(base_record(env), opts);
}

/// Law: with no explicit options and no environment overrides, resolution
/// yields the documented defaults — length 8, every switch off except the
/// use of dictionary words, bound to no profile.
pub proof fn lemma_resolve_defaults(env: EnvSnapshot)
    requires
        env.min_length is None,
        env.include_numbers is None,
        env.include_special is None,
        env.include_ucase is None,
        env.use_words is None,
    ensures
        merged_record(env, Seq::<ArgumentV>::empty()) == default_record(),
{
}

proof fn lemma_apply_options_push(rec: RecordV, s: Seq<ArgumentV>, x: ArgumentV)
    ensures
        apply_options(rec, s.push(x)) == apply_option(apply_options(rec, s), x),
    decreases s.len(),
{
    if s.len() == 0 {
        assert(s.push(x)[0] == x);
        assert(s.push(x).skip(1) =~= Seq::<ArgumentV>::empty());
        assert(apply_options(apply_option(rec, x), Seq::<ArgumentV>::empty()) == apply_option(
            rec,
            x,
        ));
        assert(apply_options(rec, s) == rec);
    } else {
        assert(s.push(x)[0] == s[0]);
        assert(s.push(x).skip(1) =~= s.skip(1).push(x));
        lemma_apply_options_push(apply_option(rec, s[0]), s.skip(1), x);
        assert(apply_options(rec, s) == apply_options(apply_option(rec, s[0]), s.skip(1)));
    }
}

/// Resolves one invocation: merges the layers, and, when asked, saves the
/// result as a new profile or loads a stored one. A failure to save is
/// reported in the returned status and does not abort resolution; a
/// failure to load does.
pub fn resolve(options: &Vec<Argument>, env: &EnvSnapshot, store: &mut ProfileStore) -> (r:
    Result<(GenerationData, SaveStatus), ResolveError>)
    requires
        old(store).wf(),
    ensures
        final(store).wf(),
        spec_new_profile(options.deep_view()) is Some && spec_profile_ref(options.deep_view())
            is Some ==> ({
            &&& r matches Err(e)
            &&& e == ResolveError::ConflictingProfileOptions
            &&& final(store)@ == old(store)@
        }),
        r matches Err(e) && e == ResolveError::ConflictingProfileOptions ==> spec_new_profile(
            options.deep_view(),
        ) is Some && spec_profile_ref(options.deep_view()) is Some,
        spec_new_profile(options.deep_view()) is Some && spec_profile_ref(options.deep_view())
            is None ==> r is Ok,
        spec_new_profile(options.deep_view()) is Some && spec_profile_ref(options.deep_view())
            is None ==> (r matches Ok(p) ==> ({
            let merged = (RecordV {
                profile: Some(spec_new_profile(options.deep_view())->0),
                ..merged_record(*env, options.deep_view())
            });
            &&& p.0@ == merged
            &&& p.0@.minimum_length >= 1
            &&& p.1 != SaveStatus::NotRequested
            &&& (p.1 == SaveStatus::Saved ==> final(store)@ == remove_named(
                old(store)@,
                merged.profile->0,
            ).push(row_of(merged)))
            &&& (p.1 == SaveStatus::DuplicateName ==> contains_name(old(store)@, merged.profile->0)
                && !merged.overwrite && final(store)@ == old(store)@)
            &&& (p.1 == SaveStatus::StorageFailure ==> final(store)@ == old(store)@)
            &&& (contains_name(old(store)@, merged.profile->0) && !merged.overwrite ==> p.1
                != SaveStatus::Saved)
        })),
        spec_profile_ref(options.deep_view()) is Some && spec_new_profile(options.deep_view())
            is None ==> ({
            let name = spec_profile_ref(options.deep_view())->0;
            &&& final(store)@ == old(store)@
            &&& (r matches Ok(p) ==> contains_name(old(store)@, name) && (lookup(old(store)@, name)
                matches Some(row) && p.0@ == record_of_row(row)) && p.1 == SaveStatus::NotRequested)
            &&& (r matches Err(e) ==> e == ResolveError::ProfileNotFound || e
                == ResolveError::Storage)
            &&& (r matches Err(e) && e == ResolveError::ProfileNotFound ==> !contains_name(
                old(store)@,
                name,
            ))
            &&& (!contains_name(old(store)@, name) ==> !(r is Ok))
        }),
        spec_profile_ref(options.deep_view()) is None && spec_new_profile(options.deep_view())
            is None ==> ({
            &&& final(store)@ == old(store)@
            &&& r matches Ok(p)
            &&& p.0@ == merged_record(*env, options.deep_view())
            &&& p.0@.minimum_length >= 1
            &&& p.1 == SaveStatus::NotRequested
        }),
{
    let ghost dv: Seq<ArgumentV> = options.deep_view();

    let mut minimum_length: usize = 8;
    let mut include_numbers: bool = false;
    let mut include_special: bool = false;
    let mut include_ucase: bool = false;
    let mut use_words: bool = true;
    if let Some(raw) = &env.min_length {
        if let Some(parsed) = parse_usize(raw.as_str()) {
            if parsed >= 1 {
                minimum_length = parsed;
            }
        }
    }
    if let Some(raw) = &env.include_numbers {
        if let Some(parsed) = parse_bool(raw.as_str()) {
            include_numbers = parsed;
        }
    }
    if let Some(raw) = &env.include_special {
        if let Some(parsed) = parse_bool(raw.as_str()) {
            include_special = parsed;
        }
    }
    if let Some(raw) = &env.include_ucase {
        if let Some(parsed) = parse_bool(raw.as_str()) {
            include_ucase = parsed;
        }
    }
    if let Some(raw) = &env.use_words {
        if let Some(parsed) = parse_bool(raw.as_str()) {
            use_words = parsed;
        }
    }
    let mut current = GenerationData {
        minimum_length,
        include_numbers,
        include_special,
        include_ucase,
        use_words,
        profile: None,
        overwrite: false,
    };
    proof {
        assert(current@ == base_record(*env));
        assert(dv.take(0) =~= Seq::<ArgumentV>::empty());
    }
    let mut i: usize = 0;
    while i < options.len()
        invariant
            i <= options.len(),
            dv == options.deep_view(),
            dv.len() == options.len(),
            current@ == apply_options(base_record(*env), dv.take(i as int)),
        decreases options.len() - i,
    {
        proof {
            assert(dv.take(i + 1) =~= dv.take(i as int).push(dv[i as int]));
            lemma_apply_options_push(base_record(*env), dv.take(i as int), dv[i as int]);
        }
        match &options[i] {
            Argument::ParsedArgument(t, ArgValue::Bool(b)) => match t {
                ArgType::IncludeNumbers => {
                    current.include_numbers = *b;
                },
                ArgType::IncludeSpecial => {
                    current.include_special = *b;
                },
                ArgType::IncludeUcase => {
                    current.include_ucase = *b;
                },
                ArgType::UseWords => {
                    current.use_words = *b;
                },
                ArgType::Overwrite => {
                    current.overwrite = *b;
                },
                _ => {},
            },
            Argument::ParsedArgument(ArgType::MinimumLength, ArgValue::Int(n)) => {
                if *n >= 1 {
                    current.minimum_length = *n;
                }
            },
            _ => {},
        }
        i = i + 1;
    }
    proof {
        assert(dv.take(dv.len() as int) =~= dv);
    }

    let mut new_profile: Option<String> = None;
    let mut existing_profile: Option<String> = None;
    let mut j: usize = options.len();
    proof {
        assert(dv.skip(j as int) =~= Seq::<ArgumentV>::empty());
    }
    while j > 0
        invariant
            j <= options.len(),
            dv == options.deep_view(),
            dv.len() == options.len(),
            (match new_profile {
                Some(ref s) => spec_new_profile(dv.skip(j as int)) == Some(s@),
                None => spec_new_profile(dv.skip(j as int)) is None,
            }),
            (match existing_profile {
                Some(ref s) => spec_profile_ref(dv.skip(j as int)) == Some(s@),
                None => spec_profile_ref(dv.skip(j as int)) is None,
            }),
        decreases j,
    {
        j = j - 1;
        let ghost rest: Seq<ArgumentV> = dv.skip(j as int);
        proof {
            assert(rest[0] == dv[j as int]);
            assert(rest.skip(1) =~= dv.skip(j as int + 1));
        }
        if new_profile.is_none() {
            if let Argument::ParsedArgument(ArgType::NewProfile, ArgValue::String(s)) = &options[j] {
                new_profile = Some(s.clone());
            }
        }
        if existing_profile.is_none() {
            if let Argument::ParsedArgument(ArgType::Profile, ArgValue::String(s)) = &options[j] {
                existing_profile = Some(s.clone());
            }
        }
    }
    proof {
        assert(dv.skip(0) =~= dv);
        lemma_merged_minimum_length_at_least_one(*env, dv);
    }

    match (new_profile, existing_profile) {
        (Some(_), Some(_)) => Err(ResolveError::ConflictingProfileOptions),
        (Some(name), None) => {
            current.profile = Some(name);
            let status = match store.create(&current) {
                Ok(()) => SaveStatus::Saved,
                Err(StoreError::DuplicateName) => SaveStatus::DuplicateName,
                Err(_) => SaveStatus::StorageFailure,
            };
            Ok((current, status))
        },
        (None, Some(name)) => match store.read(name.as_str()) {
            Ok(Some(loaded)) => Ok((loaded, SaveStatus::NotRequested)),
            Ok(None) => Err(ResolveError::ProfileNotFound),
            Err(_) => Err(ResolveError::Storage),
        },
        (None, None) => Ok((current, SaveStatus::NotRequested)),
    }
}

} // verus!

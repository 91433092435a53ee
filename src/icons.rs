use vstd::prelude::*;
use crate::id_map::IdMap;
use vstd::string::StrSliceExecFns;
use freedesktop_icons::LookupBuilder;

verus! {

#[verifier::external_type_specification]
#[verifier::external_body]
pub struct ExLookupBuilder<'a>(LookupBuilder<'a>);

/// Relies on `freedesktop_icons::lookup`: starts a lookup of an icon name.
pub assume_specification[ freedesktop_icons::lookup ](name: &str) -> LookupBuilder<'_>;

/// Relies on `LookupBuilder::with_cache`: lets the lookup use and fill the
/// crate's cache.
pub assume_specification<'a>[ LookupBuilder::<'a>::with_cache ](b: LookupBuilder<'a>) -> LookupBuilder<'a>;

/// Relies on `LookupBuilder::with_theme`: sets the theme searched first.
pub assume_specification<'a, 'b: 'a>[ LookupBuilder::<'a>::with_theme ](
    b: LookupBuilder<'a>,
    theme: &'b str,
) -> LookupBuilder<'a>;

/// Icon size that a lookup asks for unless told otherwise.
pub const DEFAULT_ICON_SIZE: u16 = 24;

/// Icon scale that a lookup asks for unless told otherwise.
pub const DEFAULT_ICON_SCALE: u16 = 1;

/// Largest scale that a lookup is run with.
pub const MAX_ICON_SCALE: u16 = 16;

/// Largest scaled size that a lookup is run with: the largest `i16`.
pub const MAX_SCALED_ICON_SIZE: u32 = 32767;

/// A size and scale that the theme search can compute with: the lookup
/// multiplies them, and the scale with the sizes of the theme's own
/// directories, in 16-bit signed arithmetic.
pub open spec fn searchable(size: u16, scale: u16) -> bool {
    scale <= MAX_ICON_SCALE && size as int * scale as int <= MAX_SCALED_ICON_SIZE as int
}

/// Relies on `LookupBuilder::with_size`, `LookupBuilder::with_scale` and
/// `LookupBuilder::find`: runs the lookup for that size and scale on the
/// installed themes. What it finds depends on the files on disk, so nothing
/// is stated of it. `find` computes `size * scale` in `i16`, which the
/// `requires` keeps in range; it also multiplies `scale` with the sizes and
/// thresholds that the theme files give, which depends on those files (with
/// the sizes themes use, up to a few hundred pixels, the bound on `scale`
/// keeps these in range too).
#[verifier::external_body]
fn find_icon_file(b: LookupBuilder, size: u16, scale: u16) -> (r: Option<String>)
    requires
        searchable(size, scale),
{
    b.with_size(size).with_scale(scale).find().and_then(|p| p.to_str().map(|s| s.to_owned()))
}

/// A path on a Unix system is absolute when it starts at the root.
pub open spec fn absolute_path(s: Seq<char>) -> bool {
    s.len() > 0 && s[0] == '/'
}

/// Whether `s` is an absolute path, as `std::path::Path::is_absolute` says
/// on Unix: it begins with `/`.
pub fn is_absolute_path(s: &str) -> (r: bool)
    ensures
        r == absolute_path(s@),
{
    if s.is_empty() {
        false
    } else {
        s.get_char(0) == '/'
    }
}

/// Options of an icon search.
pub struct FindIconOptions {
    pub themes: Option<Vec<String>>,
    pub size: Option<u16>,
    pub scale: Option<u16>,
}

impl Default for FindIconOptions {
    fn default() -> (r: Self)
        ensures
            r.themes is None,
            r.size is None,
            r.scale is None,
    {
        FindIconOptions { themes: None, size: None, scale: None }
    }
}

pub open spec fn size_or_default(size: Option<u16>) -> u16 {
    match size {
        Some(s) => s,
        None => DEFAULT_ICON_SIZE,
    }
}

pub open spec fn scale_or_default(scale: Option<u16>) -> u16 {
    match scale {
        Some(s) => s,
        None => DEFAULT_ICON_SCALE,
    }
}

/// The file of icon `name`: an absolute path names the file itself; any
/// other name is looked up in the icon themes, each given theme replacing
/// the previous one. A size and scale that the search cannot compute with
/// find nothing.
pub fn lookup_icon(name: &str, themes: Option<&Vec<String>>, size: Option<u16>, scale: Option<u16>) -> (r:
    Option<String>)
    ensures
        absolute_path(name@) ==> r is Some && r->Some_0@ == name@,
        !absolute_path(name@) && !searchable(size_or_default(size), scale_or_default(scale)) ==> r is None,
{
    if is_absolute_path(name) {
        return Some(name.to_owned());
    }
    let size = match size {
        Some(s) => s,
        None => DEFAULT_ICON_SIZE,
    };
    let scale = match scale {
        Some(s) => s,
        None => DEFAULT_ICON_SCALE,
    };
    if scale > MAX_ICON_SCALE {
        return None;
    }
    assert((size as u32) * (scale as u32) <= 0xffff * 16) by (nonlinear_arith)
        requires
            size <= 0xffff,
            scale <= 16,
    ;
    if (size as u32) * (scale as u32) > MAX_SCALED_ICON_SIZE {
        return None;
    }
    let mut builder = freedesktop_icons::lookup(name).with_cache();
    if let Some(themes) = themes {
        let mut i: usize = 0;
        while i < themes.len()
            invariant
                i <= themes@.len(),
            decreases themes@.len() - i,
        {
            builder = builder.with_theme(themes[i].as_str());
            i = i + 1;
        }
    }
    find_icon_file(builder, size, scale)
}

/// The file of each icon name, under the name itself; absolute paths stand
/// for themselves.
pub fn find_icon_paths(icon_names: Vec<String>, options: Option<FindIconOptions>) -> (r: IdMap<
    Option<String>,
>)
    ensures
        r.wf(),
        forall|k: Seq<char>| #[trigger] r@.contains_key(k) <==> exists|i: int|
            0 <= i < icon_names@.len() && icon_names@[i]@ == k,
        forall|k: Seq<char>| #[trigger] r@.contains_key(k) && absolute_path(k) ==> r@[k] is Some && r@[k]->Some_0@ == k,
{
    let opts = match options {
        Some(o) => o,
        None => FindIconOptions::default(),
    };
    let themes = opts.themes;
    let size = opts.size;
    let scale = opts.scale;
    let mut result: IdMap<Option<String>> = IdMap::new();
    let mut i: usize = 0;
    while i < icon_names.len()
        invariant
            i <= icon_names@.len(),
            result.wf(),
            forall|k: Seq<char>| #[trigger] result@.contains_key(k) <==> exists|j: int|
                0 <= j < i && icon_names@[j]@ == k,
            forall|k: Seq<char>| #[trigger] result@.contains_key(k) && absolute_path(k) ==> result@[k] is Some
                && result@[k]->Some_0@ == k,
        decreases icon_names@.len() - i,
    {
        let name = &icon_names[i];
        let found = lookup_icon(name.as_str(), themes.as_ref(), size, scale);
        result.insert(name.clone(), found);
        proof {
            assert forall|k: Seq<char>| #[trigger] result@.contains_key(k) implies exists|j: int|
                0 <= j < i + 1 && icon_names@[j]@ == k by {
                if k == name@ {
                    assert(icon_names@[i as int]@ == k);
                }
            }
            assert forall|k: Seq<char>| (exists|j: int| 0 <= j < i + 1 && icon_names@[j]@ == k) implies
                #[trigger] result@.contains_key(k) by {
                let j = choose|j: int| 0 <= j < i + 1 && icon_names@[j]@ == k;
                if j < i {
                    assert(exists|j: int| 0 <= j < i && icon_names@[j]@ == k);
                }
            }
        }
        i = i + 1;
    }
    result
}

} // verus!

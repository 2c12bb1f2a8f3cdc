//! Site configuration: where templates, pages and assets are read from
//! and where output is written. The template directory is stored with the
//! recursive glob suffix the template engine expects.

use vstd::prelude::*;

verus! {

/// Directories a site build works with.
#[derive(Debug, Clone, PartialEq, Eq)]
pub struct Config {
    template_dir: String,
    page_dir: String,
    asset_dir: String,
    output_dir: String,
}

impl Config {
    /// The stored template pattern: a directory with `/**/*` appended.
    pub closed spec fn template_pattern_spec(&self) -> Seq<char> {
        self.template_dir@
    }

    /// The page directory.
    pub closed spec fn page_dir_spec(&self) -> Seq<char> {
        self.page_dir@
    }

    /// The asset directory.
    pub closed spec fn asset_dir_spec(&self) -> Seq<char> {
        self.asset_dir@
    }

    /// The output directory.
    pub closed spec fn output_dir_spec(&self) -> Seq<char> {
        self.output_dir@
    }

    /// Replaces the template directory; the recursive glob suffix is
    /// appended to whatever is given.
    pub fn with_templates(self, template_dir: String) -> (r: Self)
        ensures
            r.template_pattern_spec() == template_dir@ + "/**/*"@,
            r.page_dir_spec() == self.page_dir_spec(),
            r.asset_dir_spec() == self.asset_dir_spec(),
            r.output_dir_spec() == self.output_dir_spec(),
    {
        let mut template_dir = template_dir;
        crate::append_str(&mut template_dir, "/**/*");
        Config { template_dir, ..self }
    }

    /// Replaces the page directory.
    pub fn with_pages(self, page_dir: String) -> (r: Self)
        ensures
            r.page_dir_spec() == page_dir@,
            r.template_pattern_spec() == self.template_pattern_spec(),
            r.asset_dir_spec() == self.asset_dir_spec(),
            r.output_dir_spec() == self.output_dir_spec(),
    {
        Config { page_dir, ..self }
    }

    /// Replaces the asset directory.
    pub fn with_assets(self, asset_dir: String) -> (r: Self)
        ensures
            r.asset_dir_spec() == asset_dir@,
            r.template_pattern_spec() == self.template_pattern_spec(),
            r.page_dir_spec() == self.page_dir_spec(),
            r.output_dir_spec() == self.output_dir_spec(),
    {
        Config { asset_dir, ..self }
    }

    /// Replaces the output directory.
    pub fn with_output(self, output_dir: String) -> (r: Self)
        ensures
            r.output_dir_spec() == output_dir@,
            r.template_pattern_spec() == self.template_pattern_spec(),
            r.page_dir_spec() == self.page_dir_spec(),
            r.asset_dir_spec() == self.asset_dir_spec(),
    {
        Config { output_dir, ..self }
    }

    /// The whole template pattern, glob suffix included, as the template
    /// engine takes it.
    pub fn template_pattern(&self) -> (r: &String)
        ensures
            r@ == self.template_pattern_spec(),
    {
        &self.template_dir
    }

    /// The template directory: the stored pattern without the five
    /// characters of its glob suffix.
    pub fn template_dir(&self) -> (r: String)
        ensures
            self.template_pattern_spec().len() >= 5 ==> r@ == self.template_pattern_spec()
                .take(self.template_pattern_spec().len() - 5),
            self.template_pattern_spec().len() < 5 ==> r@ == self.template_pattern_spec(),
    {
        let n = self.template_dir.as_str().unicode_len();
        if n >= 5 {
            String::from_str(self.template_dir.as_str().substring_char(0, n - 5))
        } else {
            self.template_dir.clone()
        }
    }

    /// The page directory.
    pub fn page_dir(&self) -> (r: &String)
        ensures
            r@ == self.page_dir_spec(),
    {
        &self.page_dir
    }

    /// The asset directory.
    pub fn asset_dir(&self) -> (r: &String)
        ensures
            r@ == self.asset_dir_spec(),
    {
        &self.asset_dir
    }

    /// The output directory.
    pub fn output_dir(&self) -> (r: &String)
        ensures
            r@ == self.output_dir_spec(),
    {
        &self.output_dir
    }
}

impl Default for Config {
    /// Templates under `templates`, pages under `pages`, assets under
    /// `assets`, output under `public`.
    fn default() -> (r: Self)
        ensures
            r.template_pattern_spec() == "templates/**/*"@,
            r.page_dir_spec() == "pages"@,
            r.asset_dir_spec() == "assets"@,
            r.output_dir_spec() == "public"@,
    {
        Config {
            template_dir: String::from_str("templates/**/*"),
            page_dir: String::from_str("pages"),
            asset_dir: String::from_str("assets"),
            output_dir: String::from_str("public"),
        }
    }
}

} // verus!

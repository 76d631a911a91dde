//! The template descriptor that container creation consumes.

use vstd::prelude::*;

verus! {

/// A template script that builds the root filesystem of a new container: its
/// name, and the flat list of arguments that the script is run with.
pub struct Template {
    name: String,
    options: Vec<String>,
}

/// A template as its name and its arguments, in the order in which they
/// were added.
pub ghost struct TemplateView {
    pub name: Seq<char>,
    pub options: Seq<Seq<char>>,
}

impl View for Template {
    type V = TemplateView;

    closed spec fn view(&self) -> TemplateView {
        TemplateView {
            name: self.name@,
            options: Seq::new(self.options@.len(), |i: int| self.options@[i]@),
        }
    }
}

impl Template {
    /// A template of the given name, with no arguments yet.
    pub fn new(name: &str) -> (template: Template)
        ensures
            template@ == (TemplateView { name: name@, options: Seq::empty() }),
    {
        let template = Template { name: name.to_owned(), options: Vec::new() };
        proof {
            assert(template@.options =~= Seq::empty());
        }
        template
    }

    /// Adds a parameter and its value, in this order, behind the arguments
    /// that are there.
    pub fn option(self, opt: &str, value: &str) -> (template: Template)
        ensures
            template@ == (TemplateView {
                name: self@.name,
                options: self@.options.push(opt@).push(value@),
            }),
    {
        let mut template = self;
        template.options.push(opt.to_owned());
        template.options.push(value.to_owned());
        proof {
            assert(template@.options =~= self@.options.push(opt@).push(value@));
        }
        template
    }

    /// Adds a bare switch, an argument that has no value of its own, behind
    /// the arguments that are there.
    pub fn flag(self, switch: &str) -> (template: Template)
        ensures
            template@ == (TemplateView {
                name: self@.name,
                options: self@.options.push(switch@),
            }),
    {
        let mut template = self;
        template.options.push(switch.to_owned());
        proof {
            assert(template@.options =~= self@.options.push(switch@));
        }
        template
    }

    /// Takes the template apart into its name and its arguments.
    pub fn into_parts(self) -> (parts: (String, Vec<String>))
        ensures
            parts.0@ == self@.name,
            crate::marshal::texts(parts.1@) == self@.options,
    {
        proof {
            assert(crate::marshal::texts(self.options@) =~= self@.options);
        }
        (self.name, self.options)
    }
}

} // verus!

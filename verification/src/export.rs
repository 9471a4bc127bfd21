//! Rendering secrets as environment-file placeholders: each secret becomes a
//! line that defers to the vault at load time, so the exported file never
//! holds a plaintext value.

use vstd::prelude::*;
use vstd::string::StringExecFns;

verus! {

/// The export renderings on offer.
pub struct ExportFormat;

/// The placeholder block for these names: one
/// `<name>=$(smart-locker decrypt -n <name>)` line per name, in order.
pub open spec fn render_env_exports(names: Seq<Seq<char>>) -> Seq<char>
    decreases names.len(),
{
    if names.len() == 0 {
        Seq::empty()
    } else {
        render_env_exports(names.drop_last()) + names.last() + "=$(smart-locker decrypt -n "@
            + names.last() + ")\n"@
    }
}

impl ExportFormat {
    /// Renders the placeholder block for these secret names: writing it to a
    /// file is the caller's business.
    pub fn export_env_with_placeholders(secret_names: &Vec<String>) -> (r: String)
        ensures
            r@ == render_env_exports(secret_names.deep_view()),
    {
        proof {
            assert(secret_names.deep_view().take(0) =~= Seq::<Seq<char>>::empty());
        }
        let mut content = String::new();
        let mut i: usize = 0;
        while i < secret_names.len()
            invariant
                i <= secret_names@.len(),
                secret_names.deep_view().len() == secret_names@.len(),
                content@ == render_env_exports(secret_names.deep_view().take(i as int)),
            decreases secret_names@.len() - i,
        {
            content.append(secret_names[i].as_str());
            content.append("=$(smart-locker decrypt -n ");
            content.append(secret_names[i].as_str());
            content.append(")\n");
            proof {
                let t = secret_names.deep_view().take(i + 1);
                assert(t.drop_last() =~= secret_names.deep_view().take(i as int));
                assert(t.last() == secret_names.deep_view()[i as int]);
                assert(content@ =~= render_env_exports(t));
            }
            i += 1;
        }
        proof {
            assert(secret_names.deep_view().take(secret_names@.len() as int)
                =~= secret_names.deep_view());
        }
        content
    }
}

} // verus!

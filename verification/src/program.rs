use vstd::prelude::*;

use vstd::slice::slice_to_vec;
use vstd::string::StringSliceAdditionalSpecFns;

use crate::errors::ProgramError;
use crate::spirv::{
    decode_packed_string, insts_well_formed_from, module_binding_slots, module_entry_points,
    module_well_formed, DECORATION_BINDING, HEADER_WORDS, MODULE_MAGIC, OP_DECORATE,
    OP_ENTRY_POINT,
};

verus! {

/// An immutable compiled compute pipeline: the shader module's words, the
/// resolved entry-point name, a diagnostic label, the resource-binding
/// layout derived from the module's declared bindings, and any non-fatal
/// compiler warnings. A program holds no mutable state after construction
/// and may be shared across any number of tasks.
#[derive(Debug)]
pub struct Program {
    /// The shader module in its intermediate binary form, as 32-bit words.
    pub binary: Vec<u32>,
    /// The diagnostic label the program was compiled under.
    pub label: String,
    /// The entry-point name the pipeline was resolved against.
    pub entry_point: String,
    /// The derived layout: the resource slots the module declares, in
    /// order of first declaration, without duplicates.
    pub slots: Vec<u32>,
    /// Non-fatal compiler diagnostics captured at construction.
    pub warnings: String,
}

impl Program {
    /// Builds a pipeline from a compiled shader module. The external
    /// compiler has already turned source text into `binary`; this
    /// constructor loads the module, resolves `entry_point` among the
    /// module's declared entry points, and derives the resource-binding
    /// layout from its binding declarations. It fails with
    /// `ShaderModuleCreationFailed` when the words are not a well-formed
    /// module, with `EntryPointNotFound` when no entry point of that name
    /// is declared, and with `PipelineLayoutCreationFailed` when two
    /// declarations claim the same slot, in that order of checks.
    pub fn new(binary: &Vec<u32>, name: &str, entry_point: &str) -> (r: Result<Program, ProgramError>)
        ensures
            !module_well_formed(binary@) ==> r matches Err(ProgramError::ShaderModuleCreationFailed),
            module_well_formed(binary@) && !module_entry_points(binary@).contains(entry_point.spec_bytes())
                ==> (r matches Err(ProgramError::EntryPointNotFound(s)) && s@ == entry_point@),
            module_well_formed(binary@) && module_entry_points(binary@).contains(entry_point.spec_bytes())
                && !module_binding_slots(binary@).no_duplicates() ==> r matches Err(
                ProgramError::PipelineLayoutCreationFailed,
            ),
            module_well_formed(binary@) && module_entry_points(binary@).contains(entry_point.spec_bytes())
                && module_binding_slots(binary@).no_duplicates() ==> (r matches Ok(p) && p.binary@ == binary@
                && p.label@ == name@ && p.entry_point@ == entry_point@ && p.slots@ == module_binding_slots(
                binary@,
            ) && p.warnings@.len() == 0),
    {
        let n = binary.len();
        if n < HEADER_WORDS {
            return Err(ProgramError::ShaderModuleCreationFailed);
        }
        if binary[0] != MODULE_MAGIC {
            return Err(ProgramError::ShaderModuleCreationFailed);
        }
        let mut i: usize = HEADER_WORDS;
        while i < n
            invariant
                HEADER_WORDS <= i <= n,
                n == binary@.len(),
                insts_well_formed_from(binary@, HEADER_WORDS as int) == insts_well_formed_from(
                    binary@,
                    i as int,
                ),
            decreases n - i,
        {
            let wc = (binary[i] / 65536) as usize;
            if wc < 1 || wc > n - i {
                return Err(ProgramError::ShaderModuleCreationFailed);
            }
            i = i + wc;
        }
        let ghost w = binary@;
        assert(module_well_formed(w));

        let target: Vec<u8> = slice_to_vec(entry_point.as_bytes());
        let ghost tb = entry_point.spec_bytes();
        let mut found = false;
        let mut i: usize = HEADER_WORDS;
        while i < n
            invariant
                HEADER_WORDS <= i <= n,
                n == w.len(),
                w == binary@,
                target@ == tb,
                insts_well_formed_from(w, i as int),
                module_entry_points(w).contains(tb) == (found || crate::spirv::entry_point_names_from(
                    w,
                    i as int,
                ).contains(tb)),
            decreases n - i,
        {
            let first = binary[i];
            let wc = (first / 65536) as usize;
            let opcode = first % 65536;
            let ghost names_here = crate::spirv::entry_point_names_from(w, i as int);
            let ghost names_next = crate::spirv::entry_point_names_from(w, i + wc);
            if opcode == OP_ENTRY_POINT && wc >= 4 {
                let nm = decode_packed_string(binary, i + 3, i + wc);
                proof {
                    assert(names_here == seq![nm@] + names_next);
                    assert(names_here.contains(tb) == (nm@ == tb || names_next.contains(tb))) by {
                        if nm@ == tb {
                            assert(names_here[0] == tb);
                        }
                        if names_next.contains(tb) {
                            let k = choose|k: int| 0 <= k < names_next.len() && names_next[k] == tb;
                            assert(names_here[k + 1] == tb);
                        }
                        if names_here.contains(tb) {
                            let k = choose|k: int| 0 <= k < names_here.len() && names_here[k] == tb;
                            if k > 0 {
                                assert(names_next[k - 1] == tb);
                            }
                        }
                    }
                }
                if bytes_equal(&nm, &target) {
                    found = true;
                }
            } else {
                proof {
                    assert(names_here == names_next);
                }
            }
            i = i + wc;
        }
        if !found {
            return Err(ProgramError::EntryPointNotFound(entry_point.to_owned()));
        }

        let mut slots: Vec<u32> = Vec::new();
        let mut i: usize = HEADER_WORDS;
        while i < n
            invariant
                HEADER_WORDS <= i <= n,
                n == w.len(),
                w == binary@,
                insts_well_formed_from(w, i as int),
                slots@ + crate::spirv::binding_slots_from(w, i as int) == module_binding_slots(w),
            decreases n - i,
        {
            let first = binary[i];
            let wc = (first / 65536) as usize;
            let opcode = first % 65536;
            let ghost slots_here = crate::spirv::binding_slots_from(w, i as int);
            let ghost slots_next = crate::spirv::binding_slots_from(w, i + wc);
            if opcode == OP_DECORATE && wc == 4 && binary[i + 2] == DECORATION_BINDING {
                let ghost before = slots@;
                slots.push(binary[i + 3]);
                proof {
                    assert(slots_here == seq![w[i + 3]] + slots_next);
                    assert(slots@ + slots_next =~= before + slots_here);
                }
            } else {
                proof {
                    assert(slots_here == slots_next);
                }
            }
            i = i + wc;
        }
        proof {
            assert(slots@ + crate::spirv::binding_slots_from(w, n as int) =~= slots@);
            assert(slots@ == module_binding_slots(w));
        }

        let k = slots.len();
        let mut a: usize = 0;
        while a < k
            invariant
                a <= k,
                k == slots@.len(),
                w == binary@,
                tb == entry_point.spec_bytes(),
                module_well_formed(w),
                module_entry_points(w).contains(tb),
                slots@ == module_binding_slots(w),
                forall|x: int, y: int| 0 <= x < y < slots@.len() && y < a ==> slots@[x] != slots@[y],
            decreases k - a,
        {
            let mut b: usize = 0;
            while b < a
                invariant
                    b <= a < k,
                    k == slots@.len(),
                    w == binary@,
                    tb == entry_point.spec_bytes(),
                    module_well_formed(w),
                    module_entry_points(w).contains(tb),
                    slots@ == module_binding_slots(w),
                    forall|x: int| 0 <= x < b ==> slots@[x] != slots@[a as int],
                decreases a - b,
            {
                if slots[b] == slots[a] {
                    return Err(ProgramError::PipelineLayoutCreationFailed);
                }
                b = b + 1;
            }
            a = a + 1;
        }
        assert(slots@.no_duplicates());

        let module = binary.clone();
        proof {
            assert(module@ =~= binary@);
        }
        Ok(
            Program {
                binary: module,
                label: name.to_owned(),
                entry_point: entry_point.to_owned(),
                slots,
                warnings: String::new(),
            },
        )
    }

    /// Returns the non-fatal compiler warnings captured when the program
    /// was built; empty when the compiler had nothing to report.
    pub fn get_warnings(&self) -> (r: String)
        ensures
            r@ == self.warnings@,
    {
        self.warnings.clone()
    }
}

/// Runtime equality of two byte lists.
fn bytes_equal(a: &Vec<u8>, b: &Vec<u8>) -> (r: bool)
    ensures
        r == (a@ == b@),
{
    if a.len() != b.len() {
        return false;
    }
    let n = a.len();
    let mut i: usize = 0;
    while i < n
        invariant
            i <= n,
            n == a@.len(),
            n == b@.len(),
            forall|k: int| 0 <= k < i ==> a@[k] == b@[k],
        decreases n - i,
    {
        if a[i] != b[i] {
            return false;
        }
        i = i + 1;
    }
    proof {
        assert(a@ =~= b@);
    }
    true
}

} // verus!

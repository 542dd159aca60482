use vstd::prelude::*;
use crate::ir::{Constant, FunctionDecl, FunctionType, GlobalDecl, IrModule, IrType, Op, OpView};

verus! {

/// The names in a sequence are pairwise distinct.
pub open spec fn distinct_names(names: Seq<Seq<char>>) -> bool {
    forall|i: int, j: int| 0 <= i < names.len() && 0 <= j < names.len() && i != j ==> names[i] != names[j]
}

/// The state of a compilation: the module built so far and the body of the
/// function that is being built, if any.
pub struct BuildContext {
    pub module: IrModule,
    pub body: Vec<Op>,
    pub function: Option<usize>,
}

impl BuildContext {
    /// The module is consistent, its symbol names are unique, and the
    /// function being built is one of its functions.
    pub open spec fn wf(&self) -> bool {
        &&& self.module.wf()
        &&& distinct_names(self.module.global_names())
        &&& distinct_names(self.module.function_names())
        &&& self.function matches Some(f) ==> f < self.module.functions@.len()
    }

    /// The body being built, operation by operation.
    pub open spec fn ops(&self) -> Seq<OpView> {
        self.body@.map_values(|o: Op| o@)
    }

    /// Everything but the body being built stays as it was.
    pub open spec fn same_symbols(&self, other: &BuildContext) -> bool {
        &&& self.module == other.module
        &&& self.function == other.function
    }

    /// The body grew by exactly `ops`, and nothing else changed.
    pub open spec fn emitted(&self, old: &BuildContext, ops: Seq<OpView>) -> bool {
        &&& self.same_symbols(old)
        &&& self.ops() == old.ops() + ops
        &&& self.body@.len() == old.body@.len() + ops.len()
    }

    /// The symbols of `old` are still there, under the same indices, and
    /// the same function is being built.
    pub open spec fn extends(&self, old: &BuildContext) -> bool {
        &&& self.keeps_symbols(old)
        &&& self.function == old.function
        &&& self.keeps_bodies(old)
    }

    /// The bodies of the functions of `old`, but the one now being built,
    /// are as they were.
    pub open spec fn keeps_other_bodies(&self, old: &BuildContext) -> bool {
        forall|g: usize| g < old.module.functions@.len() && self.function != Some(g)
            ==> #[trigger] self.taken_up(g) == old.taken_up(g)
    }

    /// The stored bodies of the functions of `old` are as they were.
    pub open spec fn keeps_bodies(&self, old: &BuildContext) -> bool {
        &&& old.module.bodies@.len() <= self.module.bodies@.len()
        &&& forall|g: int| 0 <= g < old.module.bodies@.len() ==> #[trigger] self.module.bodies@[g]@ == old.module.bodies@[g]@
    }

    /// The symbols of `old` are still there, under the same indices.
    pub open spec fn keeps_symbols(&self, old: &BuildContext) -> bool {
        &&& self.wf()
        &&& self.module.name == old.module.name
        &&& old.module.globals@.len() <= self.module.globals@.len()
        &&& forall|i: int| 0 <= i < old.module.globals@.len() ==> #[trigger] self.module.globals@[i] == old.module.globals@[i]
        &&& old.module.functions@.len() <= self.module.functions@.len()
        &&& forall|i: int| 0 <= i < old.module.functions@.len() ==> #[trigger] self.module.functions@[i] == old.module.functions@[i]
        &&& old.module.types@.len() <= self.module.types@.len()
        &&& forall|i: int| 0 <= i < old.module.types@.len() ==> #[trigger] self.module.types@[i] == old.module.types@[i]
    }

    /// The body grew by exactly `ops`, and the symbols were at most extended.
    pub open spec fn appended(&self, old: &BuildContext, ops: Seq<OpView>) -> bool {
        &&& self.extends(old)
        &&& self.keeps_initial_values(old)
        &&& self.ops() == old.ops() + ops
        &&& self.body@.len() == old.body@.len() + ops.len()
    }

    /// The globals of `old` keep their initial values.
    pub open spec fn keeps_initial_values(&self, old: &BuildContext) -> bool {
        forall|i: int| 0 <= i < old.module.globals@.len() ==> #[trigger] self.module.initializers@[i] == old.module.initializers@[i]
    }

    /// The body grew by `k` operations, the earlier ones stay, and the
    /// symbols were at most extended.
    pub open spec fn ops_grown(&self, old: &BuildContext, k: nat) -> bool {
        &&& self.extends(old)
        &&& self.ops().len() == old.ops().len() + k
        &&& self.ops().take(old.ops().len() as int) == old.ops()
    }

    /// The body grew by `k` operations, the earlier ones stay, the symbols
    /// were at most extended, and the globals keep their initial values.
    pub open spec fn grown(&self, old: &BuildContext, k: nat) -> bool {
        &&& self.ops_grown(old, k)
        &&& self.keeps_initial_values(old)
    }

    /// At position `at` of the body stand the operations `ops`.
    pub open spec fn ops_at(&self, at: int, ops: Seq<OpView>) -> bool {
        &&& 0 <= at
        &&& at + ops.len() <= self.ops().len()
        &&& self.ops().subrange(at, at + ops.len()) == ops
    }

    /// At position `at` stands a reference to the global named `name`.
    pub open spec fn global_ref_at(&self, at: int, name: Seq<char>) -> bool {
        &&& 0 <= at < self.ops().len()
        &&& self.ops()[at] matches OpView::GlobalRef { global }
            && global < self.module.globals@.len()
            && self.module.global_names()[global as int] == name
    }

    /// At position `at` stands a reference to the function named `name`.
    pub open spec fn function_ref_at(&self, at: int, name: Seq<char>) -> bool {
        &&& 0 <= at < self.ops().len()
        &&& self.ops()[at] matches OpView::FunctionRef { function }
            && function < self.module.functions@.len()
            && self.module.function_names()[function as int] == name
    }

    /// Extending keeps the bodies of the functions not being built.
    pub proof fn lemma_extends_keeps_taken_up(a: &BuildContext, b: &BuildContext, g: usize)
        requires
            a.wf(),
            b.extends(a),
            g < a.module.functions@.len(),
            a.function != Some(g),
        ensures
            b.taken_up(g) == a.taken_up(g),
    {
    }

    /// Extending keeps the bodies of the other functions.
    pub proof fn lemma_extends_keeps_other_bodies(a: &BuildContext, b: &BuildContext)
        requires
            a.wf(),
            b.extends(a),
        ensures
            b.keeps_other_bodies(a),
    {
        assert forall|g: usize| g < a.module.functions@.len() && b.function != Some(g)
            implies #[trigger] b.taken_up(g) == a.taken_up(g) by {
            BuildContext::lemma_extends_keeps_taken_up(a, b, g);
        }
    }

    /// Keeping the other bodies twice, while building one function, keeps them.
    pub proof fn lemma_keeps_other_bodies_trans(a: &BuildContext, b: &BuildContext, c: &BuildContext)
        requires
            b.keeps_other_bodies(a),
            c.keeps_other_bodies(b),
            c.function == b.function,
            a.module.functions@.len() <= b.module.functions@.len(),
        ensures
            c.keeps_other_bodies(a),
    {
        assert forall|g: usize| g < a.module.functions@.len() && c.function != Some(g)
            implies #[trigger] c.taken_up(g) == a.taken_up(g) by {
            assert(c.taken_up(g) == b.taken_up(g));
        }
    }

    /// Growing is transitive.
    pub proof fn lemma_ops_grown_trans(a: &BuildContext, b: &BuildContext, c: &BuildContext, k1: nat, k2: nat)
        requires
            b.ops_grown(a, k1),
            c.ops_grown(b, k2),
        ensures
            c.ops_grown(a, k1 + k2),
    {
        assert(c.ops().take(a.ops().len() as int) =~= b.ops().take(a.ops().len() as int));
    }

    /// Growing twice is growing by the sum.
    pub proof fn lemma_grown_trans(a: &BuildContext, b: &BuildContext, c: &BuildContext, k1: nat, k2: nat)
        requires
            b.grown(a, k1),
            c.grown(b, k2),
        ensures
            c.grown(a, k1 + k2),
    {
        assert(c.ops().take(a.ops().len() as int) =~= b.ops().take(a.ops().len() as int));
    }

    /// Emitting is growing, with the emitted operations at the old end.
    pub proof fn lemma_emitted_grown(a: &BuildContext, b: &BuildContext, s: Seq<OpView>)
        requires
            a.wf(),
            b.emitted(a, s),
        ensures
            b.grown(a, s.len()),
            b.ops_at(a.ops().len() as int, s),
    {
        assert(b.ops().take(a.ops().len() as int) =~= a.ops());
        assert(b.ops().subrange(a.ops().len() as int, (a.ops().len() + s.len()) as int) =~= s);
    }

    /// What stands in the body stays there as the body grows.
    pub proof fn lemma_kept(b: &BuildContext, c: &BuildContext, k: nat, at: int, s: Seq<OpView>)
        requires
            c.grown(b, k),
            b.ops_at(at, s),
        ensures
            c.ops_at(at, s),
    {
        assert forall|i: int| 0 <= i < s.len() implies c.ops().subrange(at, at + s.len())[i] == s[i] by {
            assert(c.ops()[at + i] == c.ops().take(b.ops().len() as int)[at + i]);
            assert(b.ops()[at + i] == b.ops().subrange(at, at + s.len())[i]);
        }
        assert(c.ops().subrange(at, at + s.len()) =~= s);
    }

    /// References to symbols stay as the body grows.
    pub proof fn lemma_refs_kept(b: &BuildContext, c: &BuildContext, k: nat, at: int)
        requires
            c.grown(b, k),
            0 <= at < b.ops().len(),
        ensures
            c.ops()[at] == b.ops()[at],
            forall|name: Seq<char>| b.global_ref_at(at, name) ==> #[trigger] c.global_ref_at(at, name),
            forall|name: Seq<char>| b.function_ref_at(at, name) ==> #[trigger] c.function_ref_at(at, name),
    {
        assert(c.ops()[at] == c.ops().take(b.ops().len() as int)[at]);
        assert forall|name: Seq<char>| b.global_ref_at(at, name) implies #[trigger] c.global_ref_at(at, name) by {
            if let OpView::GlobalRef { global } = b.ops()[at] {
                assert(c.module.globals@[global as int] == b.module.globals@[global as int]);
            }
        }
        assert forall|name: Seq<char>| b.function_ref_at(at, name) implies #[trigger] c.function_ref_at(at, name) by {
            if let OpView::FunctionRef { function } = b.ops()[at] {
                assert(c.module.functions@[function as int] == b.module.functions@[function as int]);
            }
        }
    }

    /// A global name stays as symbols are kept.
    pub proof fn lemma_global_kept(a: &BuildContext, b: &BuildContext, name: Seq<char>)
        requires
            b.keeps_symbols(a),
            a.module.global_names().contains(name),
        ensures
            b.module.global_names().contains(name),
    {
        let i = choose|i: int| 0 <= i < a.module.global_names().len() && a.module.global_names()[i] == name;
        assert(b.module.global_names()[i] == a.module.global_names()[i]);
    }

    /// A function name stays as symbols are kept.
    pub proof fn lemma_function_kept(a: &BuildContext, b: &BuildContext, name: Seq<char>)
        requires
            b.keeps_symbols(a),
            a.module.function_names().contains(name),
        ensures
            b.module.function_names().contains(name),
    {
        let i = choose|i: int| 0 <= i < a.module.function_names().len() && a.module.function_names()[i] == name;
        assert(b.module.function_names()[i] == a.module.function_names()[i]);
    }

    /// Operations standing one after the other stand together.
    pub proof fn lemma_ops_at_concat(bc: &BuildContext, at: int, a: Seq<OpView>, b: Seq<OpView>)
        requires
            bc.ops_at(at, a),
            bc.ops_at(at + a.len(), b),
        ensures
            bc.ops_at(at, a + b),
    {
        assert forall|i: int| 0 <= i < a.len() + b.len() implies bc.ops().subrange(at, at + a.len() + b.len())[i] == (a + b)[i] by {
            if i < a.len() {
                assert(bc.ops().subrange(at, at + a.len())[i] == a[i]);
            } else {
                assert(bc.ops().subrange(at + a.len(), at + a.len() + b.len())[i - a.len()] == b[i - a.len()]);
            }
        }
        assert(bc.ops().subrange(at, at + (a + b).len()) =~= a + b);
    }

    /// Emitting `s1` and then `s2` emits `s1 + s2`.
    pub proof fn lemma_emitted_trans(a: &BuildContext, b: &BuildContext, c: &BuildContext, s1: Seq<OpView>, s2: Seq<OpView>)
        requires
            b.emitted(a, s1),
            c.emitted(b, s2),
        ensures
            c.emitted(a, s1 + s2),
    {
        assert(c.ops() =~= a.ops() + (s1 + s2));
    }

    /// A new, empty module named `module_id`.
    pub fn new(module_id: &str) -> (bc: BuildContext)
        ensures
            bc.wf(),
            bc.module.name@ == module_id@,
            bc.module.types@.len() == 0,
            bc.module.globals@.len() == 0,
            bc.module.functions@.len() == 0,
            bc.body@.len() == 0,
            bc.function is None,
    {
        BuildContext {
            module: IrModule {
                name: String::from_str(module_id),
                types: Vec::new(),
                globals: Vec::new(),
                initializers: Vec::new(),
                constant: Vec::new(),
                functions: Vec::new(),
                bodies: Vec::new(),
            },
            body: Vec::new(),
            function: None,
        }
    }

    /// The module, with the body being built stored into its function.
    pub fn move_module(self) -> (m: IrModule)
        requires
            self.wf(),
        ensures
            m.wf(),
            self.function is None ==> m == self.module,
            self.function matches Some(f) ==> m.bodies@ == self.module.bodies@.update(f as int, self.body),
            m.name == self.module.name,
            m.types == self.module.types,
            m.globals == self.module.globals,
            m.initializers == self.module.initializers,
            m.constant == self.module.constant,
            m.functions == self.module.functions,
    {
        let mut bc = self;
        bc.finish_function();
        bc.module
    }

    /// Stores the body being built into its function and stops building.
    pub fn finish_function(&mut self)
        requires
            old(self).wf(),
        ensures
            final(self).wf(),
            final(self).function is None,
            final(self).body@.len() == 0,
            old(self).function is None ==> final(self).module == old(self).module,
            old(self).function matches Some(f) ==> final(self).module.bodies@ == old(self).module.bodies@.update(f as int, old(self).body),
            final(self).module.name == old(self).module.name,
            final(self).module.types == old(self).module.types,
            final(self).module.globals == old(self).module.globals,
            final(self).module.initializers == old(self).module.initializers,
            final(self).module.constant == old(self).module.constant,
            final(self).module.functions == old(self).module.functions,
    {
        if let Some(f) = self.function {
            let mut body = Vec::new();
            core::mem::swap(&mut body, &mut self.body);
            self.module.bodies.set(f, body);
            self.function = None;
        }
        self.body = Vec::new();
    }

    /// The body of `function` so far: the one being built, if it is that
    /// function, else the one stored in the module.
    pub open spec fn taken_up(&self, function: usize) -> Seq<OpView> {
        if self.function == Some(function) {
            self.ops()
        } else {
            self.module.bodies@[function as int]@.map_values(|o: Op| o@)
        }
    }

    /// Starts building function `function`: its body so far is taken up
    /// again and an entry block is appended and entered.  Gives the entry block.
    pub fn build_function(&mut self, function: usize) -> (entry: usize)
        requires
            old(self).wf(),
            function < old(self).module.functions@.len(),
        ensures
            final(self).wf(),
            final(self).function == Some(function),
            final(self).module.name == old(self).module.name,
            final(self).module.functions == old(self).module.functions,
            final(self).module.globals == old(self).module.globals,
            final(self).module.types == old(self).module.types,
            final(self).module.initializers == old(self).module.initializers,
            final(self).module.constant == old(self).module.constant,
            entry == old(self).taken_up(function).len(),
            final(self).ops() == old(self).taken_up(function)
                + seq![OpView::AppendBlock, OpView::PositionAtEnd { block: entry }],
            forall|g: usize| g < old(self).module.functions@.len() && g != function
                ==> #[trigger] final(self).taken_up(g) == old(self).taken_up(g),
    {
        self.finish_function();
        let mut body = Vec::new();
        core::mem::swap(&mut body, &mut self.module.bodies[function]);
        let entry = body.len();
        body.push(Op::AppendBlock);
        body.push(Op::PositionAtEnd { block: entry });
        self.body = body;
        self.function = Some(function);
        entry
    }

    /// Appends one operation to the body being built and names its value.
    pub fn emit(&mut self, op: Op) -> (id: usize)
        ensures
            final(self).emitted(old(self), seq![op@]),
            id == old(self).body@.len(),
    {
        let id = self.body.len();
        self.body.push(op);
        proof {
            assert(self.ops() =~= old(self).ops() + seq![op@]);
        }
        id
    }

    /// The global named `name`, if there is one.
    pub fn get_named_global(&self, name: &String) -> (r: Option<usize>)
        requires
            self.wf(),
        ensures
            r matches Some(g) ==> g < self.module.globals@.len() && self.module.global_names()[g as int] == name@,
            r is None <==> !self.module.global_names().contains(name@),
    {
        let mut i: usize = 0;
        while i < self.module.globals.len()
            invariant
                i <= self.module.globals@.len(),
                forall|j: int| 0 <= j < i ==> self.module.global_names()[j] != name@,
            decreases self.module.globals@.len() - i,
        {
            if self.module.globals[i].name == *name {
                assert(self.module.global_names()[i as int] == name@);
                return Some(i);
            }
            i = i + 1;
        }
        None
    }

    /// The global named `name`: the one there is, or a new one of type `ty`.
    pub fn set_declare_global(&mut self, name: String, ty: IrType) -> (g: usize)
        requires
            old(self).wf(),
        ensures
            final(self).keeps_initial_values(old(self)),
            final(self).wf(),
            g < final(self).module.globals@.len(),
            final(self).module.global_names()[g as int] == name@,
            final(self).keeps_symbols(old(self)),
            old(self).module.global_names().contains(name@) ==> final(self).module == old(self).module,
            !old(self).module.global_names().contains(name@) ==> {
                &&& g == old(self).module.globals@.len()
                &&& final(self).module.globals@ == old(self).module.globals@.push(GlobalDecl { name, ty })
                &&& final(self).module.initializers@ == old(self).module.initializers@.push(None)
                &&& final(self).module.constant@ == old(self).module.constant@.push(false)
                &&& final(self).module.functions == old(self).module.functions
                &&& final(self).module.bodies == old(self).module.bodies
                &&& final(self).module.types == old(self).module.types
                &&& final(self).module.name == old(self).module.name
            },
            final(self).body == old(self).body,
            final(self).function == old(self).function,
    {
        match self.get_named_global(&name) {
            Some(g) => g,
            None => {
                let g = self.module.globals.len();
                self.module.globals.push(GlobalDecl { name, ty });
                self.module.initializers.push(None);
                self.module.constant.push(false);
                proof {
                    assert(self.module.global_names() =~= old(self).module.global_names().push(name@));
                }
                g
            },
        }
    }

    /// Sets the initial value of global `global`.
    pub fn set_initializer(&mut self, global: usize, value: Constant)
        requires
            old(self).wf(),
            global < old(self).module.globals@.len(),
        ensures
            final(self).wf(),
            final(self).module.initializers@ == old(self).module.initializers@.update(global as int, Some(value)),
            final(self).module.globals == old(self).module.globals,
            final(self).module.constant == old(self).module.constant,
            final(self).module.functions == old(self).module.functions,
            final(self).module.bodies == old(self).module.bodies,
            final(self).module.types == old(self).module.types,
            final(self).module.name == old(self).module.name,
            final(self).body == old(self).body,
            final(self).function == old(self).function,
    {
        self.module.initializers.set(global, Some(value));
    }

    /// The initial value of global `global`, if it has one.
    pub fn get_initializer(&self, global: usize) -> (r: Option<Constant>)
        requires
            self.wf(),
            global < self.module.globals@.len(),
        ensures
            r == self.module.initializers@[global as int],
    {
        self.module.initializers[global]
    }

    /// Marks global `global` as constant or not.
    pub fn set_global_const(&mut self, global: usize, is_constant: bool)
        requires
            old(self).wf(),
            global < old(self).module.globals@.len(),
        ensures
            final(self).wf(),
            final(self).module.constant@ == old(self).module.constant@.update(global as int, is_constant),
            final(self).module.globals == old(self).module.globals,
            final(self).module.initializers == old(self).module.initializers,
            final(self).module.functions == old(self).module.functions,
            final(self).module.bodies == old(self).module.bodies,
            final(self).module.types == old(self).module.types,
            final(self).module.name == old(self).module.name,
            final(self).body == old(self).body,
            final(self).function == old(self).function,
    {
        self.module.constant.set(global, is_constant);
    }

    /// Whether global `global` is constant.
    pub fn is_global_const(&self, global: usize) -> (r: bool)
        requires
            self.wf(),
            global < self.module.globals@.len(),
        ensures
            r == self.module.constant@[global as int],
    {
        self.module.constant[global]
    }

    /// The function named `name`, if there is one.
    pub fn get_named_function(&self, name: &String) -> (r: Option<usize>)
        requires
            self.wf(),
        ensures
            r matches Some(f) ==> f < self.module.functions@.len() && self.module.function_names()[f as int] == name@,
            r is None <==> !self.module.function_names().contains(name@),
    {
        let mut i: usize = 0;
        while i < self.module.functions.len()
            invariant
                i <= self.module.functions@.len(),
                forall|j: int| 0 <= j < i ==> self.module.function_names()[j] != name@,
            decreases self.module.functions@.len() - i,
        {
            if self.module.functions[i].name == *name {
                assert(self.module.function_names()[i as int] == name@);
                return Some(i);
            }
            i = i + 1;
        }
        None
    }

    /// The function named `name`: the one there is, or a new declaration of type `ty`.
    pub fn set_declare_function(&mut self, name: String, ty: FunctionType) -> (f: usize)
        requires
            old(self).wf(),
        ensures
            final(self).wf(),
            f < final(self).module.functions@.len(),
            final(self).module.function_names()[f as int] == name@,
            final(self).keeps_symbols(old(self)),
            old(self).module.function_names().contains(name@) ==> final(self).module == old(self).module,
            !old(self).module.function_names().contains(name@) ==> {
                &&& f == old(self).module.functions@.len()
                &&& final(self).module.types@ == old(self).module.types@.push(ty)
                &&& final(self).module.functions@ == old(self).module.functions@.push(
                    FunctionDecl { name, type_index: old(self).module.types@.len() as usize })
                &&& final(self).module.bodies@.len() == old(self).module.bodies@.len() + 1
                &&& final(self).module.bodies@.drop_last() == old(self).module.bodies@
                &&& final(self).module.bodies@.last()@.len() == 0
                &&& final(self).module.globals == old(self).module.globals
                &&& final(self).module.initializers == old(self).module.initializers
                &&& final(self).module.constant == old(self).module.constant
                &&& final(self).module.name == old(self).module.name
            },
            final(self).body == old(self).body,
            final(self).function == old(self).function,
            final(self).extends(old(self)),
    {
        match self.get_named_function(&name) {
            Some(f) => f,
            None => {
                let f = self.module.functions.len();
                let type_index = self.module.types.len();
                self.module.types.push(ty);
                self.module.functions.push(FunctionDecl { name, type_index });
                self.module.bodies.push(Vec::new());
                proof {
                    assert(self.module.function_names() =~= old(self).module.function_names().push(name@));
                    assert(self.module.bodies@.drop_last() =~= old(self).module.bodies@);
                    assert forall|i: int| 0 <= i < old(self).module.functions@.len() implies #[trigger] self.module.functions@[i] == old(self).module.functions@[i] by {
                        assert(self.module.functions@[i] == old(self).module.functions@.push(FunctionDecl { name, type_index })[i]);
                    }
                    assert forall|i: int| 0 <= i < old(self).module.types@.len() implies #[trigger] self.module.types@[i] == old(self).module.types@[i] by {
                        assert(self.module.types@[i] == old(self).module.types@.push(self.module.types@.last())[i]);
                    }
                }
                f
            },
        }
    }
}

} // verus!

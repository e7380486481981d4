//! The scopes of declared variable names.
use vstd::prelude::*;

verus! {

/// Tracks which variable names are declared, scope by scope.
#[derive(Debug)]
pub struct IdVerifier {
    scopes: Vec<Vec<String>>,
}

pub open spec fn scopes_view(s: Seq<Vec<String>>) -> Seq<Seq<Seq<char>>> {
    s.map_values(|v: Vec<String>| v@.map_values(|x: String| x@))
}

/// Whether a name is declared in one of the scopes.
pub open spec fn scopes_declare(s: Seq<Seq<Seq<char>>>, name: Seq<char>) -> bool {
    exists|i: int, j: int| 0 <= i < s.len() && 0 <= j < s[i].len() && #[trigger] s[i][j] == name
}

/// The scopes after declaring a name in the innermost one (which is made
/// when there is none).
pub open spec fn scopes_define(s: Seq<Seq<Seq<char>>>, name: Seq<char>) -> Seq<Seq<Seq<char>>> {
    if s.len() == 0 {
        seq![seq![name]]
    } else {
        s.update(s.len() - 1, s.last().push(name))
    }
}

/// The scopes after leaving the innermost one.
pub open spec fn scopes_end(s: Seq<Seq<Seq<char>>>) -> Seq<Seq<Seq<char>>> {
    if s.len() == 0 {
        s
    } else {
        s.drop_last()
    }
}

impl View for IdVerifier {
    type V = Seq<Seq<Seq<char>>>;

    closed spec fn view(&self) -> Seq<Seq<Seq<char>>> {
        scopes_view(self.scopes@)
    }
}

impl IdVerifier {
    /// One empty global scope.
    pub fn new() -> (r: Self)
        ensures
            r@ == seq![Seq::<Seq<char>>::empty()],
    {
        let mut scopes: Vec<Vec<String>> = Vec::new();
        scopes.push(Vec::new());
        let r = IdVerifier { scopes };
        assert(r@ =~~= seq![Seq::<Seq<char>>::empty()]);
        r
    }

    /// Opens a new innermost scope.
    pub fn begin_scope(&mut self)
        ensures
            final(self)@ == old(self)@.push(Seq::empty()),
    {
        self.scopes.push(Vec::new());
        assert(self@ =~~= old(self)@.push(Seq::empty()));
    }

    /// Leaves the innermost scope, if there is one.
    pub fn end_scope(&mut self)
        ensures
            final(self)@ == scopes_end(old(self)@),
    {
        if self.scopes.len() > 0 {
            self.scopes.pop();
            assert(self@ =~= scopes_end(old(self)@));
        }
    }

    /// Declares a name in the innermost scope.
    pub fn define_var(&mut self, name: &String)
        ensures
            final(self)@ == scopes_define(old(self)@, name@),
    {
        let n = self.scopes.len();
        if n == 0 {
            let mut scope: Vec<String> = Vec::new();
            scope.push(name.clone());
            self.scopes.push(scope);
            assert(self@ =~~= scopes_define(old(self)@, name@));
        } else {
            let mut last = self.scopes.pop().unwrap();
            let ghost prev = last@;
            last.push(name.clone());
            self.scopes.push(last);
            assert(self.scopes@ == old(self).scopes@.update(n - 1, last));
            assert(last@.map_values(|x: String| x@) =~= prev.map_values(|x: String| x@).push(
                name@,
            ));
            assert(self@ =~~= scopes_define(old(self)@, name@));
        }
    }

    /// The name, if it is declared in one of the scopes.
    pub fn get_var_name(&self, name: &String) -> (r: Option<String>)
        ensures
            r is Some <==> scopes_declare(self@, name@),
            r matches Some(s) ==> s@ == name@,
    {
        let mut i: usize = 0;
        while i < self.scopes.len()
            invariant
                i <= self.scopes.len(),
                forall|a: int, b: int|
                    0 <= a < i && 0 <= b < self@[a].len() ==> #[trigger] self@[a][b] != name@,
            decreases self.scopes.len() - i,
        {
            let scope = &self.scopes[i];
            assert(self@[i as int] == scope@.map_values(|x: String| x@));
            let mut j: usize = 0;
            while j < scope.len()
                invariant
                    i < self.scopes.len(),
                    scope == &self.scopes@[i as int],
                    j <= scope.len(),
                    forall|b: int| 0 <= b < j ==> #[trigger] self@[i as int][b] != name@,
                decreases scope.len() - j,
            {
                assert(self@[i as int][j as int] == scope@[j as int]@);
                if scope[j].eq(name) {
                    return Some(scope[j].clone());
                }
                j = j + 1;
            }
            i = i + 1;
        }
        None
    }
}

/// A name declared in a scope that then ends is gone with it: the scopes are
/// as they were before the scope began.
pub proof fn law_scope_forgets_its_names(s: Seq<Seq<Seq<char>>>, name: Seq<char>)
    ensures
        scopes_end(scopes_define(s.push(Seq::empty()), name)) == s,
        scopes_declare(scopes_end(scopes_define(s.push(Seq::empty()), name)), name)
            == scopes_declare(s, name),
{
    assert(scopes_define(s.push(Seq::empty()), name).drop_last() =~= s);
}

/// A declared name is found, and declaring it changes no scope but the
/// innermost one, whose other names stay.
pub proof fn law_define_declares(s: Seq<Seq<Seq<char>>>, name: Seq<char>, other: Seq<char>)
    ensures
        scopes_declare(scopes_define(s, name), name),
        scopes_declare(s, other) ==> scopes_declare(scopes_define(s, name), other),
        s.len() > 0 ==> scopes_define(s, name).len() == s.len() && scopes_define(s, name).drop_last()
            == s.drop_last() && scopes_define(s, name).last() == s.last().push(name),
        s.len() == 0 ==> scopes_define(s, name) == seq![seq![name]],
{
    let t = scopes_define(s, name);
    if s.len() == 0 {
        assert(t[0][0] == name);
    } else {
        let k = s.len() - 1;
        assert(t[k][s[k].len() as int] == name);
        assert(t.drop_last() =~= s.drop_last());
        if scopes_declare(s, other) {
            let (i, j) = choose|i: int, j: int|
                0 <= i < s.len() && 0 <= j < s[i].len() && #[trigger] s[i][j] == other;
            assert(t[i][j] == other);
        }
    }
}


} // verus!

use zitro::report::Grade;

#[test]
fn grades_from_scores() {
    assert_eq!(Grade::from_score(10000), Grade::A);
    assert_eq!(Grade::from_score(8000), Grade::A);
    assert_eq!(Grade::from_score(7999), Grade::B);
    assert_eq!(Grade::from_score(6500), Grade::B);
    assert_eq!(Grade::from_score(6499), Grade::C);
    assert_eq!(Grade::from_score(5000), Grade::C);
    assert_eq!(Grade::from_score(4999), Grade::D);
    assert_eq!(Grade::from_score(3500), Grade::D);
    assert_eq!(Grade::from_score(3499), Grade::E);
    assert_eq!(Grade::from_score(2000), Grade::E);
    assert_eq!(Grade::from_score(1999), Grade::F);
    assert_eq!(Grade::from_score(0), Grade::F);
}

#[test]
fn grade_labels() {
    assert_eq!(Grade::A.label(), "A");
    assert_eq!(Grade::B.label(), "B");
    assert_eq!(Grade::C.label(), "C");
    assert_eq!(Grade::D.label(), "D");
    assert_eq!(Grade::E.label(), "E");
    assert_eq!(Grade::F.label(), "F");
}

#[test]
fn grade_messages() {
    assert_eq!(Grade::A.message(), "EXCELLENT - Empreinte minimale");
    assert_eq!(Grade::B.message(), "BON - Quelques optimisations possibles");
    assert_eq!(Grade::C.message(), "MOYEN - Impact notable");
    assert_eq!(Grade::D.message(), "MEDIOCRE - Forte empreinte carbone");
    assert_eq!(Grade::E.message(), "MAUVAIS - Impact environnemental critique");
    assert_eq!(Grade::F.message(), "CRITIQUE - Catastrophe ecologique numerique");
}

#[test]
fn production_messages() {
    assert_eq!(Grade::A.production_message(), ("Autorise pour la production.", true));
    assert_eq!(Grade::B.production_message(), ("Autorise pour la production.", true));
    assert_eq!(
        Grade::C.production_message(),
        ("Optimisez avant la mise en production.", false)
    );
    assert_eq!(Grade::D.production_message(), ("Deconseille sans refonte.", false));
    assert_eq!(Grade::E.production_message(), ("Interdiction de deploiement.", false));
    assert_eq!(Grade::F.production_message(), ("Refonte totale requise.", false));
}

#[test]
fn production_allowed_from_sixty_five_points() {
    assert!(Grade::from_score(6500).production_message().1);
    assert!(!Grade::from_score(6499).production_message().1);
}

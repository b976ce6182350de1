use evosim::chromosome::Chromosome;
use evosim::crossover::{crossover_with, CrossoverMethod, UniformCrossover};
use evosim::genetic::{parent_or_fallback, GeneticAlgorithm};
use evosim::individual::{AnimalIndividual, Individual};
use evosim::mutation::{MutationMethod, NoMutation};
use evosim::selection::{RouletteWheelSelection, SelectionError, SelectionMethod};
use rand::distributions::WeightedError;
use rand::rngs::StdRng;
use rand::SeedableRng;

type Creature = AnimalIndividual<f32>;

fn creature(fitness: u32, genes: Vec<f32>) -> Creature {
    AnimalIndividual::new(fitness, Chromosome::from_genes(genes))
}

#[test]
fn uniform_crossover_takes_each_gene_from_a_parent() {
    let mut rng = StdRng::seed_from_u64(7);
    let a = Chromosome::from_genes((0..100).map(|i| i as f32).collect());
    let b = Chromosome::from_genes((0..100).map(|i| -(i as f32) - 1.0).collect());
    let child = UniformCrossover::new().crossover(&mut rng, &a, &b);
    assert_eq!(child.len(), 100);
    let mut from_a = 0;
    let mut from_b = 0;
    for i in 0..100 {
        let g = child.get(i);
        assert!(g == a.get(i) || g == b.get(i));
        if g == a.get(i) {
            from_a += 1;
        } else {
            from_b += 1;
        }
    }
    assert!(from_a > 0 && from_b > 0);
}

#[test]
fn uniform_crossover_of_empty_genomes_is_empty() {
    let mut rng = StdRng::seed_from_u64(1);
    let a: Chromosome<f32> = Chromosome::from_genes(vec![]);
    let b: Chromosome<f32> = Chromosome::from_genes(vec![]);
    let child = UniformCrossover::new().crossover(&mut rng, &a, &b);
    assert_eq!(child.len(), 0);
}

#[test]
fn roulette_picks_the_only_fit_individual() {
    let mut rng = StdRng::seed_from_u64(3);
    let population = vec![creature(0, vec![1.0]), creature(5, vec![2.0]), creature(0, vec![3.0])];
    for _ in 0..50 {
        let chosen = RouletteWheelSelection.select(&mut rng, &population).unwrap();
        assert_eq!(chosen.fitness(), 5);
        assert_eq!(chosen.chromosome().get(0), 2.0);
    }
}

#[test]
fn roulette_fails_when_every_fitness_is_zero() {
    let mut rng = StdRng::seed_from_u64(3);
    let population = vec![creature(0, vec![1.0]), creature(0, vec![2.0])];
    let err = RouletteWheelSelection.select(&mut rng, &population).unwrap_err();
    assert_eq!(
        err.to_string(),
        "SelectionError: Selection failed to select due to error:\n All weights are zero in distribution"
    );
}

#[test]
fn roulette_fails_on_an_empty_population() {
    let mut rng = StdRng::seed_from_u64(3);
    let population: Vec<Creature> = vec![];
    let err = RouletteWheelSelection.select(&mut rng, &population).unwrap_err();
    assert_eq!(
        err.to_string(),
        "SelectionError: Selection failed to select due to error:\n No weights provided in distribution"
    );
}

#[test]
fn selection_error_wraps_the_weighted_error() {
    let err = SelectionError::from_error(WeightedError::AllWeightsZero);
    assert_eq!(
        err.to_string(),
        "SelectionError: Selection failed to select due to error:\n All weights are zero in distribution"
    );
}

#[test]
fn evolve_keeps_population_size_and_genome_length() {
    let mut rng = StdRng::seed_from_u64(11);
    let ga = GeneticAlgorithm::new(RouletteWheelSelection, UniformCrossover::new(), NoMutation);
    for n in 1..6usize {
        for len in 1..4usize {
            let population: Vec<Creature> = (0..n)
                .map(|i| creature(i as u32, (0..len).map(|g| (i * 10 + g) as f32).collect()))
                .collect();
            let next = ga.evolve(&mut rng, &population);
            assert_eq!(next.len(), n);
            for child in &next {
                assert_eq!(child.chromosome().len(), len);
                for g in 0..len {
                    let gene = child.chromosome().get(g);
                    assert!(population.iter().any(|p| p.chromosome().get(g) == gene));
                }
            }
        }
    }
}

#[test]
fn evolve_falls_back_when_every_fitness_is_zero() {
    let mut rng = StdRng::seed_from_u64(5);
    let ga = GeneticAlgorithm::new(RouletteWheelSelection, UniformCrossover::new(), NoMutation);
    let population = vec![
        creature(0, vec![1.0, 1.0]),
        creature(0, vec![2.0, 2.0]),
        creature(0, vec![3.0, 3.0]),
    ];
    let next = ga.evolve(&mut rng, &population);
    assert_eq!(next.len(), 3);
    for child in &next {
        for g in 0..2 {
            let gene = child.chromosome().get(g);
            assert!(gene == 1.0 || gene == 2.0);
        }
    }
}

#[test]
fn evolve_single_member_with_zero_fitness() {
    let mut rng = StdRng::seed_from_u64(5);
    let ga = GeneticAlgorithm::new(RouletteWheelSelection, UniformCrossover::new(), NoMutation);
    let population = vec![creature(0, vec![4.0, 5.0])];
    let next = ga.evolve(&mut rng, &population);
    assert_eq!(next.len(), 1);
    assert_eq!(next[0].chromosome().genes(), &vec![4.0, 5.0]);
}

#[test]
fn chromosome_set_and_into_genes() {
    let mut c = Chromosome::from_genes(vec![1.0f32, 2.0, 3.0]);
    c.set(1, 9.0);
    assert_eq!(c.get(1), 9.0);
    assert_eq!(c.into_genes(), vec![1.0, 9.0, 3.0]);
}

#[test]
fn newborn_individual_has_zero_fitness() {
    let child = Creature::from_chromosome(Chromosome::from_genes(vec![0.5, 0.25]));
    assert_eq!(child.fitness(), 0);
    assert_eq!(child.into_chromosome().into_genes(), vec![0.5, 0.25]);
}

#[test]
fn crossover_with_follows_the_coins() {
    let a = Chromosome::from_genes(vec![1.0f32, 2.0, 3.0, 4.0]);
    let b = Chromosome::from_genes(vec![-1.0f32, -2.0, -3.0, -4.0]);
    let child = crossover_with(&vec![true, false, false, true], &a, &b);
    assert_eq!(child.into_genes(), vec![1.0, -2.0, -3.0, 4.0]);
    let all_b = crossover_with(&vec![false; 4], &a, &b);
    assert_eq!(all_b.into_genes(), vec![-1.0, -2.0, -3.0, -4.0]);
}

#[test]
fn fallback_parents_are_first_and_second_members() {
    let population = vec![creature(0, vec![1.0]), creature(0, vec![2.0]), creature(0, vec![3.0])];
    let failed = || Err(SelectionError::from_error(WeightedError::AllWeightsZero));
    assert_eq!(parent_or_fallback(failed(), &population, false).get(0), 1.0);
    assert_eq!(parent_or_fallback(failed(), &population, true).get(0), 2.0);
    assert_eq!(parent_or_fallback(Ok(&population[2]), &population, true).get(0), 3.0);
    let single = vec![creature(0, vec![7.0])];
    assert_eq!(parent_or_fallback(failed(), &single, true).get(0), 7.0);
}

#[test]
fn unmutated_children_inherit_from_fit_members() {
    let mut rng = StdRng::seed_from_u64(21);
    let ga = GeneticAlgorithm::new(RouletteWheelSelection, UniformCrossover::new(), NoMutation);
    let population = vec![
        creature(0, vec![0.0, 0.0, 0.0]),
        creature(3, vec![1.0, 1.0, 1.0]),
        creature(0, vec![2.0, 2.0, 2.0]),
        creature(1, vec![3.0, 3.0, 3.0]),
    ];
    let next = ga.evolve(&mut rng, &population);
    assert_eq!(next.len(), 4);
    for child in &next {
        for g in 0..3 {
            let gene = child.chromosome().get(g);
            assert!(gene == 1.0 || gene == 3.0);
        }
    }
}

#[test]
fn no_mutation_leaves_the_child() {
    let mut rng = StdRng::seed_from_u64(2);
    let mut child = Chromosome::from_genes(vec![0.5f32, -0.5]);
    MutationMethod::<f32>::mutate(&NoMutation, &mut rng, &mut child);
    assert_eq!(child.into_genes(), vec![0.5, -0.5]);
}
